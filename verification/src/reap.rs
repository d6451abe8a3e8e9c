//! Reaping a swarm: deleting everything the run minted.
//!
//! Reaping removes, in an order that cannot orphan anything: every row in the
//! swarm's memory namespace, every remaining row attributed to a box, each box's
//! identity, and the board entry with its claims. It is best-effort and total: a
//! failure becomes a warning and the cascade goes on.

use vstd::prelude::*;

use crate::board::{BoardEventView, BoardsView, FeedEntryView, SwarmStateBoard};
use crate::roster::{swarm_namespace, RosterBoxView, RosterView, SwarmRoster};
use crate::text;

verus! {

/// What a reap removed, and anything it could not.
#[derive(Debug, PartialEq, Eq)]
pub struct ReapReport {
    pub swarm_id: String,
    /// Rows deleted by namespace.
    pub namespace_rows_purged: usize,
    /// Rows deleted by box attribution, after the namespace sweep.
    pub agent_rows_purged: usize,
    /// Box identities removed.
    pub identities_removed: usize,
    pub board_removed: bool,
    pub claims_dropped: usize,
    /// Everything that did not delete cleanly, in the order it was attempted.
    pub warnings: Vec<String>,
}

/// A reap report as plain values.
#[verifier::ext_equal]
pub struct ReapReportView {
    pub swarm_id: Seq<char>,
    pub namespace_rows_purged: nat,
    pub agent_rows_purged: nat,
    pub identities_removed: nat,
    pub board_removed: bool,
    pub claims_dropped: nat,
    pub warnings: Seq<Seq<char>>,
}

impl View for ReapReport {
    type V = ReapReportView;

    open spec fn view(&self) -> ReapReportView {
        ReapReportView {
            swarm_id: self.swarm_id@,
            namespace_rows_purged: self.namespace_rows_purged as nat,
            agent_rows_purged: self.agent_rows_purged as nat,
            identities_removed: self.identities_removed as nat,
            board_removed: self.board_removed,
            claims_dropped: self.claims_dropped as nat,
            warnings: text::views(self.warnings@),
        }
    }
}

impl ReapReport {
    /// Whether the cascade completed with nothing left behind.
    pub fn is_clean(&self) -> (r: bool)
        ensures
            r == (self@.warnings.len() == 0),
    {
        self.warnings.len() == 0
    }
}

/// One deletion that a reap asks of the memory backend.
#[derive(Debug, PartialEq, Eq)]
pub enum ReapCall {
    /// Delete every row of a namespace.
    PurgeNamespace(String),
    /// Delete every row attributed to an alias.
    PurgeRows(String),
    /// Forget the identity of an alias, which the backend lets go only once no row
    /// points at it.
    PurgeIdentity(String),
}

/// A deletion as plain values.
#[verifier::ext_equal]
pub enum ReapCallView {
    PurgeNamespace(Seq<char>),
    PurgeRows(Seq<char>),
    PurgeIdentity(Seq<char>),
}

impl View for ReapCall {
    type V = ReapCallView;

    open spec fn view(&self) -> ReapCallView {
        match self {
            ReapCall::PurgeNamespace(namespace) => ReapCallView::PurgeNamespace(namespace@),
            ReapCall::PurgeRows(alias) => ReapCallView::PurgeRows(alias@),
            ReapCall::PurgeIdentity(alias) => ReapCallView::PurgeIdentity(alias@),
        }
    }
}

impl ReapCallView {
    /// What is said of a call that failed with `error`.
    pub open spec fn warning(self, error: Seq<char>) -> Seq<char> {
        (match self {
            ReapCallView::PurgeNamespace(namespace) => "purge namespace "@ + namespace,
            ReapCallView::PurgeRows(alias) => "purge rows for "@ + alias,
            ReapCallView::PurgeIdentity(alias) => "purge identity for "@ + alias,
        }) + ": "@ + error
    }
}

/// The deletions of a reap, in an order that cannot orphan anything: the swarm's
/// namespace, then every box's rows, then every box's identity.
pub open spec fn planned<C>(roster: RosterView<C>) -> Seq<ReapCallView> {
    let aliases = aliases_of(roster.boxes);
    seq![ReapCallView::PurgeNamespace("swarm/"@ + roster.swarm_id)] + Seq::new(
        aliases.len(),
        |i: int| ReapCallView::PurgeRows(aliases[i]),
    ) + Seq::new(aliases.len(), |i: int| ReapCallView::PurgeIdentity(aliases[i]))
}

/// The deletions to ask of the memory backend for `roster`'s swarm, in order. Each is to
/// be asked whatever the earlier ones came to, and the answers go to [`reap_swarm`].
pub fn reap_plan<C>(roster: &SwarmRoster<C>) -> (r: Vec<ReapCall>)
    ensures
        text::views(r@) == planned(roster@),
{
    let ghost names = aliases_of(roster@.boxes);
    let aliases = roster.aliases();
    let mut out: Vec<ReapCall> = Vec::new();
    out.push(ReapCall::PurgeNamespace(swarm_namespace(roster.swarm_id())));
    let mut i: usize = 0;
    while i < aliases.len()
        invariant
            i <= aliases.len(),
            aliases.len() == names.len(),
            forall|j: int| 0 <= j < names.len() ==> (#[trigger] aliases@[j])@ == names[j],
            out.len() == 1 + i,
            out@[0]@ == ReapCallView::PurgeNamespace("swarm/"@ + roster@.swarm_id),
            forall|j: int|
                1 <= j < 1 + i ==> (#[trigger] out@[j])@ == ReapCallView::PurgeRows(names[j - 1]),
        decreases aliases.len() - i,
    {
        out.push(ReapCall::PurgeRows(aliases[i].clone()));
        i += 1;
    }
    let ghost n = names.len() as int;
    let mut k: usize = 0;
    while k < aliases.len()
        invariant
            k <= aliases.len(),
            n == names.len(),
            aliases.len() == n,
            forall|j: int| 0 <= j < names.len() ==> (#[trigger] aliases@[j])@ == names[j],
            out.len() == 1 + n + k,
            out@[0]@ == ReapCallView::PurgeNamespace("swarm/"@ + roster@.swarm_id),
            forall|j: int|
                1 <= j < 1 + n ==> (#[trigger] out@[j])@ == ReapCallView::PurgeRows(names[j - 1]),
            forall|j: int|
                1 + n <= j < 1 + n + k ==> (#[trigger] out@[j])@ == ReapCallView::PurgeIdentity(
                    names[j - 1 - n],
                ),
        decreases aliases.len() - k,
    {
        out.push(ReapCall::PurgeIdentity(aliases[k].clone()));
        k += 1;
    }
    assert(text::views(out@) =~= planned(roster@));
    out
}

/// What the memory backend answered to a reap, in the order of the roster.
pub struct ReapAnswers {
    /// Rows purged from the swarm's namespace.
    pub namespace: Result<usize, String>,
    /// Rows purged for each box.
    pub rows: Vec<Result<usize, String>>,
    /// Whether each box had an identity to remove.
    pub identities: Vec<Result<bool, String>>,
}

/// The rows that the first `n` purges removed together.
pub open spec fn rows_purged(rows: Seq<Result<usize, String>>, n: int) -> nat
    decreases n,
{
    if n <= 0 {
        0
    } else {
        rows_purged(rows, n - 1) + match rows[n - 1] {
            Ok(k) => k as nat,
            Err(_) => 0,
        }
    }
}

/// How many of the first `n` identities were removed.
pub open spec fn identities_gone(identities: Seq<Result<bool, String>>, n: int) -> nat
    decreases n,
{
    if n <= 0 {
        0
    } else {
        identities_gone(identities, n - 1) + match identities[n - 1] {
            Ok(true) => 1nat,
            _ => 0,
        }
    }
}

/// One warning for each of the first `n` calls that failed.
pub open spec fn warnings_of<T>(
    what: Seq<char>,
    aliases: Seq<Seq<char>>,
    answers: Seq<Result<T, String>>,
    n: int,
) -> Seq<Seq<char>>
    decreases n,
{
    if n <= 0 {
        Seq::empty()
    } else {
        let earlier = warnings_of(what, aliases, answers, n - 1);
        match answers[n - 1] {
            Ok(_) => earlier,
            Err(e) => earlier.push(what + aliases[n - 1] + ": "@ + e@),
        }
    }
}

/// The aliases of boxes, in order.
pub open spec fn aliases_of<C>(boxes: Seq<RosterBoxView<C>>) -> Seq<Seq<char>> {
    Seq::new(boxes.len(), |i: int| boxes[i].alias)
}

impl ReapAnswers {
    /// There is an answer for each of `n` boxes, and the rows can be counted.
    pub open spec fn fit(self, n: nat) -> bool {
        &&& self.rows.len() == n
        &&& self.identities.len() == n
        &&& rows_purged(self.rows@, n as int) <= usize::MAX
    }
}

/// What went wrong in a reap, in the order it was attempted.
pub open spec fn reap_warnings<C>(roster: RosterView<C>, answers: ReapAnswers) -> Seq<Seq<char>> {
    let n = roster.boxes.len() as int;
    let aliases = aliases_of(roster.boxes);
    (match answers.namespace {
        Ok(_) => Seq::empty(),
        Err(e) => seq!["purge namespace "@ + ("swarm/"@ + roster.swarm_id) + ": "@ + e@],
    }) + warnings_of("purge rows for "@, aliases, answers.rows@, n) + warnings_of(
        "purge identity for "@,
        aliases,
        answers.identities@,
        n,
    )
}

/// The report of a reap.
pub open spec fn reaped<C>(board: BoardsView, roster: RosterView<C>, answers: ReapAnswers) -> ReapReportView {
    let id = roster.swarm_id;
    let n = roster.boxes.len() as int;
    ReapReportView {
        swarm_id: id,
        namespace_rows_purged: match answers.namespace {
            Ok(k) => k as nat,
            Err(_) => 0,
        },
        agent_rows_purged: rows_purged(answers.rows@, n),
        identities_removed: identities_gone(answers.identities@, n),
        board_removed: board.boards.contains_key(id),
        claims_dropped: if board.boards.contains_key(id) {
            board.boards[id].claims.len()
        } else {
            0
        },
        warnings: reap_warnings(roster, answers),
    }
}

/// The boards after the board of a swarm has been torn down.
pub open spec fn cleared(board: BoardsView, id: Seq<char>) -> BoardsView {
    BoardsView {
        boards: board.boards.remove(id),
        feed: if board.boards.contains_key(id) {
            board.feed.push(FeedEntryView { swarm_id: id, event: BoardEventView::Reaped })
        } else {
            board.feed
        },
    }
}

fn warning(what: &str, alias: &str, err: &str) -> (r: String)
    ensures
        r@ == what@ + alias@ + ": "@ + err@,
{
    let mut out = what.to_owned();
    out.append(alias);
    out.append(": ");
    out.append(err);
    out
}

proof fn rows_purged_grows(rows: Seq<Result<usize, String>>, m: int, n: int)
    requires
        m <= n,
    ensures
        rows_purged(rows, m) <= rows_purged(rows, n),
    decreases n - m,
{
    if m < n {
        rows_purged_grows(rows, m, n - 1);
    }
}

/// Account for the deletion of every trace of `roster`'s swarm, and tear its board
/// down.
pub fn reap_swarm<C>(
    board: &mut SwarmStateBoard,
    roster: &SwarmRoster<C>,
    answers: &ReapAnswers,
) -> (r: ReapReport)
    requires
        answers.fit(roster@.boxes.len()),
    ensures
        r@ == reaped(old(board)@, roster@, *answers),
        final(board)@ == cleared(old(board)@, roster@.swarm_id),
{
    let ghost n = roster@.boxes.len() as int;
    let ghost names = aliases_of(roster@.boxes);
    let mut warnings: Vec<String> = Vec::new();
    let namespace_rows_purged: usize = match &answers.namespace {
        Ok(rows) => *rows,
        Err(err) => {
            let namespace = swarm_namespace(roster.swarm_id());
            warnings.push(warning("purge namespace ", namespace.as_str(), err.as_str()));
            0
        },
    };
    let ghost first = text::views(warnings@);
    proof {
        match &answers.namespace {
            Ok(_) => {
                assert(first =~= Seq::<Seq<char>>::empty());
            },
            Err(e) => {
                assert(first =~= seq![
                    "purge namespace "@ + ("swarm/"@ + roster@.swarm_id) + ": "@ + e@,
                ]);
            },
        }
    }
    let aliases = roster.aliases();
    let mut agent_rows_purged: usize = 0;
    let mut i: usize = 0;
    while i < aliases.len()
        invariant
            i <= aliases.len(),
            aliases.len() == n,
            answers.rows.len() == n,
            names.len() == n,
            forall|j: int| 0 <= j < n ==> (#[trigger] aliases@[j])@ == names[j],
            rows_purged(answers.rows@, n) <= usize::MAX,
            agent_rows_purged == rows_purged(answers.rows@, i as int),
            text::views(warnings@) == first + warnings_of(
                "purge rows for "@,
                names,
                answers.rows@,
                i as int,
            ),
        decreases aliases.len() - i,
    {
        let ghost before = text::views(warnings@);
        proof {
            rows_purged_grows(answers.rows@, i + 1, n);
        }
        match &answers.rows[i] {
            Ok(rows) => {
                agent_rows_purged = agent_rows_purged + *rows;
            },
            Err(err) => {
                let w = warning("purge rows for ", aliases[i].as_str(), err.as_str());
                let ghost text = w@;
                warnings.push(w);
                assert(text::views(warnings@) =~= before.push(text));
                assert(text::views(warnings@) =~= first + warnings_of(
                    "purge rows for "@,
                    names,
                    answers.rows@,
                    i + 1,
                ));
            },
        }
        i += 1;
    }
    // Identities last: the backend refuses to drop a binding while rows still
    // point at it, so a failed purge above surfaces here too instead of
    // silently orphaning them.
    let ghost second = text::views(warnings@);
    let mut identities_removed: usize = 0;
    let mut k: usize = 0;
    while k < aliases.len()
        invariant
            k <= aliases.len(),
            aliases.len() == n,
            answers.identities.len() == n,
            names.len() == n,
            forall|j: int| 0 <= j < n ==> (#[trigger] aliases@[j])@ == names[j],
            identities_removed <= k,
            identities_removed == identities_gone(answers.identities@, k as int),
            text::views(warnings@) == second + warnings_of(
                "purge identity for "@,
                names,
                answers.identities@,
                k as int,
            ),
        decreases aliases.len() - k,
    {
        let ghost before = text::views(warnings@);
        match &answers.identities[k] {
            Ok(removed) => {
                if *removed {
                    identities_removed = identities_removed + 1;
                }
            },
            Err(err) => {
                let w = warning("purge identity for ", aliases[k].as_str(), err.as_str());
                let ghost text = w@;
                warnings.push(w);
                assert(text::views(warnings@) =~= before.push(text));
                assert(text::views(warnings@) =~= second + warnings_of(
                    "purge identity for "@,
                    names,
                    answers.identities@,
                    k + 1,
                ));
            },
        }
        k += 1;
    }
    let mut board_removed = false;
    let mut claims_dropped: usize = 0;
    match board.remove(roster.swarm_id()) {
        Some(snapshot) => {
            board_removed = true;
            claims_dropped = snapshot.claims.len();
        },
        None => {
            assert(old(board)@.boards.remove(roster@.swarm_id) =~= old(board)@.boards);
        },
    }
    ReapReport {
        swarm_id: roster.swarm_id().to_owned(),
        namespace_rows_purged,
        agent_rows_purged,
        identities_removed,
        board_removed,
        claims_dropped,
        warnings,
    }
}

proof fn warnings_none_failed<T>(
    what: Seq<char>,
    aliases: Seq<Seq<char>>,
    answers: Seq<Result<T, String>>,
    n: int,
)
    requires
        0 <= n <= answers.len(),
    ensures
        warnings_of(what, aliases, answers, n).len() == 0 <==> forall|i: int|
            0 <= i < n ==> (#[trigger] answers[i]) is Ok,
    decreases n,
{
    if n > 0 {
        warnings_none_failed(what, aliases, answers, n - 1);
        if warnings_of(what, aliases, answers, n).len() == 0 {
            assert forall|i: int| 0 <= i < n implies (#[trigger] answers[i]) is Ok by {
                if i == n - 1 {
                    assert(answers[n - 1] is Ok);
                }
            }
        }
        if forall|i: int| 0 <= i < n ==> (#[trigger] answers[i]) is Ok {
            assert(answers[n - 1] is Ok);
        }
    }
}

/// A reap is clean exactly where no call of its cascade failed: a backend that
/// cannot purge is reported, not swallowed.
pub proof fn a_clean_reap_had_no_failure<C>(
    board: BoardsView,
    roster: RosterView<C>,
    answers: ReapAnswers,
)
    requires
        answers.fit(roster.boxes.len()),
    ensures
        reaped(board, roster, answers).warnings.len() == 0 <==> {
            &&& answers.namespace is Ok
            &&& forall|i: int|
                0 <= i < roster.boxes.len() ==> (#[trigger] answers.rows@[i]) is Ok
            &&& forall|i: int|
                0 <= i < roster.boxes.len() ==> (#[trigger] answers.identities@[i]) is Ok
        },
{
    let n = roster.boxes.len() as int;
    let aliases = aliases_of(roster.boxes);
    warnings_none_failed("purge rows for "@, aliases, answers.rows@, n);
    warnings_none_failed("purge identity for "@, aliases, answers.identities@, n);
}

impl ReapAnswers {
    /// How the `k`-th call of the plan for `n` boxes failed, if it did.
    pub open spec fn failure(self, n: nat, k: int) -> Option<Seq<char>> {
        if k == 0 {
            match self.namespace {
                Ok(_) => None,
                Err(e) => Some(e@),
            }
        } else if k <= n {
            match self.rows@[k - 1] {
                Ok(_) => None,
                Err(e) => Some(e@),
            }
        } else {
            match self.identities@[k - 1 - n] {
                Ok(_) => None,
                Err(e) => Some(e@),
            }
        }
    }
}

/// One warning for each of the first `k` calls of the plan that failed, in call order.
pub open spec fn plan_warnings<C>(roster: RosterView<C>, answers: ReapAnswers, k: int) -> Seq<
    Seq<char>,
>
    decreases k,
{
    if k <= 0 {
        Seq::empty()
    } else {
        let earlier = plan_warnings(roster, answers, k - 1);
        match answers.failure(roster.boxes.len(), k - 1) {
            Some(error) => earlier.push(planned(roster)[k - 1].warning(error)),
            None => earlier,
        }
    }
}

proof fn row_warnings_follow<C>(roster: RosterView<C>, answers: ReapAnswers, i: int)
    requires
        answers.fit(roster.boxes.len()),
        0 <= i <= roster.boxes.len(),
    ensures
        plan_warnings(roster, answers, 1 + i) == plan_warnings(roster, answers, 1) + warnings_of(
            "purge rows for "@,
            aliases_of(roster.boxes),
            answers.rows@,
            i,
        ),
    decreases i,
{
    let first = plan_warnings(roster, answers, 1);
    let aliases = aliases_of(roster.boxes);
    if i > 0 {
        row_warnings_follow(roster, answers, i - 1);
        assert(planned(roster)[i] == ReapCallView::PurgeRows(aliases[i - 1]));
        assert(plan_warnings(roster, answers, 1 + i) =~= first + warnings_of(
            "purge rows for "@,
            aliases,
            answers.rows@,
            i,
        ));
    } else {
        assert(first =~= first + Seq::<Seq<char>>::empty());
    }
}

proof fn identity_warnings_follow<C>(roster: RosterView<C>, answers: ReapAnswers, i: int)
    requires
        answers.fit(roster.boxes.len()),
        0 <= i <= roster.boxes.len(),
    ensures
        plan_warnings(roster, answers, 1 + roster.boxes.len() + i) == plan_warnings(
            roster,
            answers,
            1 + roster.boxes.len() as int,
        ) + warnings_of(
            "purge identity for "@,
            aliases_of(roster.boxes),
            answers.identities@,
            i,
        ),
    decreases i,
{
    let n = roster.boxes.len() as int;
    let first = plan_warnings(roster, answers, 1 + n);
    let aliases = aliases_of(roster.boxes);
    if i > 0 {
        identity_warnings_follow(roster, answers, i - 1);
        assert(planned(roster)[n + i] == ReapCallView::PurgeIdentity(aliases[i - 1]));
        assert(plan_warnings(roster, answers, 1 + n + i) =~= first + warnings_of(
            "purge identity for "@,
            aliases,
            answers.identities@,
            i,
        ));
    } else {
        assert(first =~= first + Seq::<Seq<char>>::empty());
    }
}

/// Whichever calls fail, a report warns of each failed call of the plan and of no other,
/// in call order.
pub proof fn a_reap_warns_in_call_order<C>(
    board: BoardsView,
    roster: RosterView<C>,
    answers: ReapAnswers,
)
    requires
        answers.fit(roster.boxes.len()),
    ensures
        reaped(board, roster, answers).warnings == plan_warnings(
            roster,
            answers,
            planned(roster).len() as int,
        ),
{
    let n = roster.boxes.len() as int;
    row_warnings_follow(roster, answers, n);
    identity_warnings_follow(roster, answers, n);
    assert(plan_warnings(roster, answers, 0) =~= Seq::<Seq<char>>::empty());
    assert(planned(roster)[0] == ReapCallView::PurgeNamespace("swarm/"@ + roster.swarm_id));
    let first = plan_warnings(roster, answers, 1);
    match answers.namespace {
        Ok(_) => {
            assert(first =~= Seq::<Seq<char>>::empty());
        },
        Err(e) => {
            assert(first =~= seq!["purge namespace "@ + ("swarm/"@ + roster.swarm_id) + ": "@ + e@]);
        },
    }
}

/// The order of a reap orphans nothing: the namespace goes first, and a box's identity is
/// asked for only after the rows of every box.
pub proof fn a_reap_orphans_nothing<C>(roster: RosterView<C>, i: int, j: int)
    requires
        0 <= i < planned(roster).len(),
        0 <= j < planned(roster).len(),
    ensures
        planned(roster).len() == 1 + 2 * roster.boxes.len(),
        planned(roster)[i] is PurgeNamespace <==> i == 0,
        planned(roster)[i] is PurgeRows && planned(roster)[j] is PurgeIdentity ==> i < j,
        forall|b: int|
            0 <= b < roster.boxes.len() ==> {
                &&& planned(roster)[1 + b] == ReapCallView::PurgeRows(
                    (#[trigger] roster.boxes[b]).alias,
                )
                &&& planned(roster)[1 + roster.boxes.len() + b] == ReapCallView::PurgeIdentity(
                    roster.boxes[b].alias,
                )
            },
{
}

/// Nothing of a reaped swarm stays on the boards, and no other board is touched.
pub proof fn a_reap_clears_one_board(board: BoardsView, id: Seq<char>, other: Seq<char>)
    requires
        other != id,
    ensures
        !cleared(board, id).boards.contains_key(id),
        cleared(board, id).boards.contains_key(other) == board.boards.contains_key(other),
        board.boards.contains_key(other) ==> cleared(board, id).boards[other]
            == board.boards[other],
{
}

/// What a reap reports: the rows that each answer says were purged, summed over the boxes,
/// one identity for each box that had one, and the claims of the board that was there.
pub proof fn a_reap_reports_what_was_answered<C>(
    board: BoardsView,
    roster: RosterView<C>,
    answers: ReapAnswers,
    n: int,
)
    requires
        answers.fit(roster.boxes.len()),
        0 < n <= roster.boxes.len(),
    ensures
        ({
            let report = reaped(board, roster, answers);
            let id = roster.swarm_id;
            &&& report.swarm_id == id
            &&& answers.namespace matches Ok(k) ==> report.namespace_rows_purged == k
            &&& answers.namespace is Err ==> report.namespace_rows_purged == 0
            &&& report.agent_rows_purged == rows_purged(answers.rows@, roster.boxes.len() as int)
            &&& report.identities_removed == identities_gone(
                answers.identities@,
                roster.boxes.len() as int,
            )
            &&& report.board_removed == board.boards.contains_key(id)
            &&& board.boards.contains_key(id) ==> report.claims_dropped
                == board.boards[id].claims.len()
            &&& !board.boards.contains_key(id) ==> report.claims_dropped == 0
        }),
        rows_purged(answers.rows@, 0) == 0,
        identities_gone(answers.identities@, 0) == 0,
        answers.rows@[n - 1] matches Ok(k) ==> rows_purged(answers.rows@, n) == rows_purged(
            answers.rows@,
            n - 1,
        ) + k,
        answers.rows@[n - 1] is Err ==> rows_purged(answers.rows@, n) == rows_purged(
            answers.rows@,
            n - 1,
        ),
        identities_gone(answers.identities@, n) == identities_gone(answers.identities@, n - 1)
            + if answers.identities@[n - 1] == Ok::<bool, String>(true) {
            1int
        } else {
            0int
        },
{
}

proof fn every_failure_is_warned_of<T>(
    what: Seq<char>,
    aliases: Seq<Seq<char>>,
    answers: Seq<Result<T, String>>,
    n: int,
    i: int,
)
    requires
        0 <= i < n <= answers.len(),
        answers[i] is Err,
    ensures
        warnings_of(what, aliases, answers, n).contains(
            what + aliases[i] + ": "@ + answers[i]->Err_0@,
        ),
    decreases n,
{
    let all = warnings_of(what, aliases, answers, n);
    let said = what + aliases[i] + ": "@ + answers[i]->Err_0@;
    if i == n - 1 {
        assert(all[all.len() - 1] == said);
    } else {
        every_failure_is_warned_of(what, aliases, answers, n - 1, i);
        let earlier = warnings_of(what, aliases, answers, n - 1);
        let k = choose|k: int| 0 <= k < earlier.len() && earlier[k] == said;
        assert(all[k] == said);
    }
}

/// No failure goes unsaid: the warnings of a reap hold, for each call that failed, what the
/// call was for and what it said.
pub proof fn no_failure_goes_unsaid<C>(
    board: BoardsView,
    roster: RosterView<C>,
    answers: ReapAnswers,
    i: int,
)
    requires
        answers.fit(roster.boxes.len()),
        0 <= i < roster.boxes.len(),
    ensures
        ({
            let warnings = reaped(board, roster, answers).warnings;
            &&& answers.namespace matches Err(e) ==> warnings.contains(
                "purge namespace "@ + ("swarm/"@ + roster.swarm_id) + ": "@ + e@,
            )
            &&& answers.rows@[i] matches Err(e) ==> warnings.contains(
                "purge rows for "@ + roster.boxes[i].alias + ": "@ + e@,
            )
            &&& answers.identities@[i] matches Err(e) ==> warnings.contains(
                "purge identity for "@ + roster.boxes[i].alias + ": "@ + e@,
            )
        }),
{
    let n = roster.boxes.len() as int;
    let aliases = aliases_of(roster.boxes);
    let first = match answers.namespace {
        Ok(_) => Seq::empty(),
        Err(e) => seq!["purge namespace "@ + ("swarm/"@ + roster.swarm_id) + ": "@ + e@],
    };
    let rows = warnings_of("purge rows for "@, aliases, answers.rows@, n);
    let identities = warnings_of("purge identity for "@, aliases, answers.identities@, n);
    let warnings = reaped(board, roster, answers).warnings;
    assert(warnings == first + rows + identities);
    if answers.namespace is Err {
        assert(warnings[0] == first[0]);
    }
    if answers.rows@[i] is Err {
        every_failure_is_warned_of("purge rows for "@, aliases, answers.rows@, n, i);
        let said = "purge rows for "@ + aliases[i] + ": "@ + answers.rows@[i]->Err_0@;
        let k = choose|k: int| 0 <= k < rows.len() && rows[k] == said;
        assert(warnings[first.len() + k] == said);
    }
    if answers.identities@[i] is Err {
        every_failure_is_warned_of("purge identity for "@, aliases, answers.identities@, n, i);
        let said = "purge identity for "@ + aliases[i] + ": "@ + answers.identities@[i]->Err_0@;
        let k = choose|k: int| 0 <= k < identities.len() && identities[k] == said;
        assert(warnings[first.len() + rows.len() + k] == said);
    }
}

/// Subscribers of the board that a reap takes down hear of it last; where there was none,
/// nobody hears anything.
pub proof fn subscribers_hear_of_a_reap(board: BoardsView, id: Seq<char>)
    ensures
        board.boards.contains_key(id) ==> cleared(board, id).feed.len() == board.feed.len() + 1
            && cleared(board, id).feed.last() == (FeedEntryView {
            swarm_id: id,
            event: BoardEventView::Reaped,
        }) && cleared(board, id).feed.drop_last() == board.feed,
        !board.boards.contains_key(id) ==> cleared(board, id).feed == board.feed,
{
    if board.boards.contains_key(id) {
        assert(cleared(board, id).feed.drop_last() =~= board.feed);
    }
}

} // verus!
