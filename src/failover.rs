use vstd::prelude::*;
use crate::FetchError;

verus! {

/// The message of the error given when no mirror is supplied.
pub open spec fn no_mirrors_message() -> Seq<char> {
    "No mirrors provided!"@
}

/// The views of a sequence of strings.
pub open spec fn string_views(v: Seq<String>) -> Seq<Seq<char>> {
    v.map_values(|m: String| m@)
}

/// What the failover does once the attempt at mirror `index` of `count` has
/// ended with `outcome`: it stops with that outcome on a success or on the
/// last mirror, and otherwise goes on to the next mirror (`None`).
pub open spec fn decide(index: nat, count: nat, outcome: Result<Vec<u8>, FetchError>) -> Option<
    Result<Vec<u8>, FetchError>,
> {
    if outcome is Ok || index + 1 >= count {
        Some(outcome)
    } else {
        None
    }
}

/// A download of one artifact tried on an ordered list of mirrors, one after
/// the other. The caller fetches `url()` and hands the outcome to `record`,
/// until `record` returns the final result.
pub struct MirrorFailover {
    base: String,
    mirrors: Vec<String>,
    next: usize,
}

impl MirrorFailover {
    /// The path appended to each mirror.
    pub closed spec fn base_view(&self) -> Seq<char> {
        self.base@
    }

    /// The mirrors, in the order they are tried.
    pub closed spec fn mirror_views(&self) -> Seq<Seq<char>> {
        string_views(self.mirrors@)
    }

    /// The index of the mirror to try now.
    pub closed spec fn next_index(&self) -> nat {
        self.next as nat
    }

    /// There is a mirror to try.
    pub open spec fn wf(&self) -> bool {
        self.next_index() < self.mirror_views().len()
    }

    /// Starts a failover of `base` over `mirrors`; fails when there is no mirror.
    pub fn new(base: &str, mirrors: Vec<String>) -> (r: Result<MirrorFailover, FetchError>)
        ensures
            match r {
                Ok(f) => {
                    &&& mirrors@.len() > 0
                    &&& f.wf()
                    &&& f.base_view() == base@
                    &&& f.mirror_views() == string_views(mirrors@)
                    &&& f.next_index() == 0
                },
                Err(FetchError::Parse(m)) => mirrors@.len() == 0 && m@ == no_mirrors_message(),
                Err(_) => false,
            },
    {
        if mirrors.len() == 0 {
            return Err(FetchError::Parse(String::from_str("No mirrors provided!")));
        }
        Ok(MirrorFailover { base: String::from_str(base), mirrors, next: 0 })
    }

    /// The URL to fetch now: the current mirror followed by the path, with
    /// nothing added between them.
    pub fn url(&self) -> (r: String)
        requires
            self.wf(),
        ensures
            r@ == self.mirror_views()[self.next_index() as int] + self.base_view(),
    {
        let mirror = self.mirrors[self.next].clone();
        mirror.concat(self.base.as_str())
    }

    /// Takes the outcome of fetching `url()`. Returns the final result on a
    /// success or when the last mirror has failed; otherwise moves on to the
    /// next mirror, dropping the error, and returns `None`.
    pub fn record(&mut self, outcome: Result<Vec<u8>, FetchError>) -> (r: Option<
        Result<Vec<u8>, FetchError>,
    >)
        requires
            old(self).wf(),
        ensures
            r == decide(old(self).next_index(), old(self).mirror_views().len(), outcome),
            final(self).base_view() == old(self).base_view(),
            final(self).mirror_views() == old(self).mirror_views(),
            final(self).next_index() == if r is None {
                old(self).next_index() + 1
            } else {
                old(self).next_index()
            },
            final(self).wf(),
    {
        let count = self.mirrors.len();
        assert(self.mirror_views().len() == count);
        if outcome.is_ok() || self.next >= count - 1 {
            Some(outcome)
        } else {
            self.next = self.next + 1;
            None
        }
    }
}

/// The result of a failover that has reached mirror `index`, where the
/// attempt at mirror `i` ends with `outcomes[i]`; `None` while no attempt
/// has decided.
pub open spec fn run_from(index: nat, outcomes: Seq<Result<Vec<u8>, FetchError>>) -> Option<
    Result<Vec<u8>, FetchError>,
>
    decreases outcomes.len() - index,
{
    if index >= outcomes.len() {
        None
    } else {
        match decide(index, outcomes.len(), outcomes[index as int]) {
            Some(r) => Some(r),
            None => run_from(index + 1, outcomes),
        }
    }
}

proof fn lemma_run_reaches_success(
    index: nat,
    outcomes: Seq<Result<Vec<u8>, FetchError>>,
    success: int,
)
    requires
        index <= success < outcomes.len(),
        outcomes[success] is Ok,
        forall|j: int| 0 <= j < success ==> outcomes[j] is Err,
    ensures
        run_from(index, outcomes) == Some(outcomes[success]),
    decreases success - index,
{
    if index < success {
        lemma_run_reaches_success(index + 1, outcomes, success);
    }
}

proof fn lemma_run_reaches_last(index: nat, outcomes: Seq<Result<Vec<u8>, FetchError>>)
    requires
        index < outcomes.len(),
        forall|j: int| 0 <= j < outcomes.len() ==> outcomes[j] is Err,
    ensures
        run_from(index, outcomes) == Some(outcomes.last()),
    decreases outcomes.len() - index,
{
    if index + 1 < outcomes.len() {
        lemma_run_reaches_last(index + 1, outcomes);
    }
}

/// The failover returns the outcome of the first mirror that succeeds; the
/// errors of the mirrors tried before it are not seen.
pub proof fn lemma_failover_first_success(
    outcomes: Seq<Result<Vec<u8>, FetchError>>,
    success: int,
)
    requires
        0 <= success < outcomes.len(),
        outcomes[success] is Ok,
        forall|j: int| 0 <= j < success ==> outcomes[j] is Err,
    ensures
        run_from(0, outcomes) == Some(outcomes[success]),
{
    lemma_run_reaches_success(0, outcomes, success);
}

/// When every mirror fails, the failover returns exactly the last mirror's error.
pub proof fn lemma_failover_all_fail(outcomes: Seq<Result<Vec<u8>, FetchError>>)
    requires
        outcomes.len() > 0,
        forall|j: int| 0 <= j < outcomes.len() ==> outcomes[j] is Err,
    ensures
        run_from(0, outcomes) == Some(outcomes.last()),
{
    lemma_run_reaches_last(0, outcomes);
}

/// Over a non-empty list of mirrors the failover always ends with a result:
/// a success, or the last mirror's error.
pub proof fn lemma_failover_decides(outcomes: Seq<Result<Vec<u8>, FetchError>>)
    requires
        outcomes.len() > 0,
    ensures
        run_from(0, outcomes) matches Some(r) && (r is Ok || r == outcomes.last()),
{
    if exists|i: int| 0 <= i < outcomes.len() && outcomes[i] is Ok {
        let i = choose|i: int| 0 <= i < outcomes.len() && outcomes[i] is Ok;
        lemma_first_ok_exists(outcomes, i);
    } else {
        lemma_run_reaches_last(0, outcomes);
    }
}

proof fn lemma_first_ok_exists(outcomes: Seq<Result<Vec<u8>, FetchError>>, i: int)
    requires
        0 <= i < outcomes.len(),
        outcomes[i] is Ok,
    ensures
        run_from(0, outcomes) matches Some(r) && r is Ok,
    decreases i,
{
    if exists|j: int| 0 <= j < i && outcomes[j] is Ok {
        let j = choose|j: int| 0 <= j < i && outcomes[j] is Ok;
        lemma_first_ok_exists(outcomes, j);
    } else {
        lemma_run_reaches_success(0, outcomes, i);
    }
}

} // verus!
