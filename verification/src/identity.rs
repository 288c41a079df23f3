//! Rotating the identity under which requests go out.
//!
//! The synthesis endpoint is wary of a client that keeps sending the same
//! user-agent string. Each chunk of a job is therefore sent under a string
//! that the job has not used yet and that the job before it did not use
//! either, as far as a bounded number of draws can find one.

use vstd::prelude::*;
use crate::segment::views;

verus! {

/// How many candidates are drawn for one chunk before a used one is accepted.
pub const MAX_UA_GENERATION_ATTEMPTS: u8 = 10;

/// A set of identity strings. Nothing occurs in it twice.
#[derive(Debug)]
pub struct IdentitySet {
    items: Vec<String>,
}

impl View for IdentitySet {
    type V = Set<Seq<char>>;

    closed spec fn view(&self) -> Set<Seq<char>> {
        views(self.items@).to_set()
    }
}

/// What becomes of a candidate identity.
#[derive(Debug, Clone, Copy, PartialEq, Eq, Structural)]
pub enum Verdict {
    /// Neither the job nor the job before it has used the candidate: it is
    /// taken.
    Fresh,
    /// The candidate was used before, and so were all the candidates drawn
    /// before it: it is taken all the same, so that the job goes on.
    Repeated,
    /// The candidate was used before: another one is drawn.
    TryAgain,
}

/// The verdict on a candidate, given what the job and the job before it have
/// used and how many candidates were turned down for this chunk already.
pub open spec fn verdict_on(
    candidate: Seq<char>,
    job: Set<Seq<char>>,
    history: Set<Seq<char>>,
    rejected_before: nat,
) -> Verdict {
    if !job.contains(candidate) && !history.contains(candidate) {
        Verdict::Fresh
    } else if rejected_before + 1 >= MAX_UA_GENERATION_ATTEMPTS {
        Verdict::Repeated
    } else {
        Verdict::TryAgain
    }
}

impl IdentitySet {
    #[verifier::type_invariant]
    spec fn nothing_twice(self) -> bool {
        views(self.items@).no_duplicates()
    }

    /// The empty set.
    pub fn new() -> (s: Self)
        ensures
            s@ == Set::<Seq<char>>::empty(),
    {
        let s = IdentitySet { items: Vec::new() };
        assert(views(s.items@) =~= Seq::<Seq<char>>::empty());
        assert(s@ =~= Set::<Seq<char>>::empty());
        s
    }

    /// How many identities the set holds.
    pub fn len(&self) -> (n: usize)
        ensures
            n == self@.len(),
            self@.finite(),
    {
        proof {
            use_type_invariant(self);
            views(self.items@).unique_seq_to_set();
        }
        self.items.len()
    }

    /// Whether the set holds `identity`.
    pub fn contains(&self, identity: &str) -> (r: bool)
        ensures
            r == self@.contains(identity@),
    {
        let mut i: usize = 0;
        while i < self.items.len()
            invariant
                i <= self.items.len(),
                forall|k: int| 0 <= k < i ==> views(self.items@)[k] != identity@,
            decreases self.items.len() - i,
        {
            if crate::text::str_equal(self.items[i].as_str(), identity) {
                assert(views(self.items@)[i as int] == identity@);
                return true;
            }
            i += 1;
        }
        false
    }

    /// Puts `identity` into the set. Returns whether it was new.
    pub fn insert(&mut self, identity: String) -> (added: bool)
        ensures
            final(self)@ == old(self)@.insert(identity@),
            added == !old(self)@.contains(identity@),
    {
        proof {
            use_type_invariant(&*self);
        }
        if self.contains(identity.as_str()) {
            assert(self@.insert(identity@) =~= self@);
            false
        } else {
            let ghost before = views(self.items@);
            let mut items = self.items.clone();
            assert(views(items@) =~= before);
            items.push(identity);
            proof {
                assert(views(items@) =~= before.push(identity@));
                before.lemma_push_to_set_commute(identity@);
                assert(!before.contains(identity@));
            }
            self.items = items;
            true
        }
    }

    /// The identities of the set, each once.
    pub fn to_vec(&self) -> (v: Vec<String>)
        ensures
            views(v@).to_set() == self@,
            views(v@).no_duplicates(),
    {
        proof {
            use_type_invariant(self);
        }
        let v = self.items.clone();
        assert(views(v@) =~= views(self.items@));
        v
    }
}

impl Clone for IdentitySet {
    fn clone(&self) -> (copy: Self)
        ensures
            copy@ == self@,
    {
        proof {
            use_type_invariant(self);
        }
        let items = self.items.clone();
        assert(views(items@) =~= views(self.items@));
        IdentitySet { items }
    }
}

/// `fake_user_agent::get_rua`: one user-agent string, drawn at random from
/// the lists that crate is built with. Nothing is claimed of the string: two
/// draws may or may not give the same one.
#[verifier::external_body]
fn random_user_agent() -> (candidate: String) {
    fake_user_agent::get_rua().to_string()
}

/// Decides what becomes of a candidate identity.
///
/// `rejected_before` counts the candidates that were turned down for this
/// chunk already.
pub fn judge_candidate(
    candidate: &str,
    uas_this_task: &IdentitySet,
    last_call_uas: &IdentitySet,
    rejected_before: u8,
) -> (v: Verdict)
    ensures
        v == verdict_on(candidate@, uas_this_task@, last_call_uas@, rejected_before as nat),
{
    if !uas_this_task.contains(candidate) && !last_call_uas.contains(candidate) {
        Verdict::Fresh
    } else if rejected_before >= MAX_UA_GENERATION_ATTEMPTS - 1 {
        Verdict::Repeated
    } else {
        Verdict::TryAgain
    }
}

/// Takes a candidate identity for the next chunk of a job, or turns it down.
///
/// `rejected_before` counts the candidates that were turned down for this
/// chunk already. A candidate that is taken, fresh or not, is handed back and
/// stands in `uas_this_task` afterwards; one that is turned down leaves
/// `uas_this_task` as it was.
pub fn take_candidate(
    candidate: String,
    last_call_uas: &IdentitySet,
    uas_this_task: &mut IdentitySet,
    rejected_before: u8,
) -> (r: Option<String>)
    ensures
        match verdict_on(
            candidate@,
            old(uas_this_task)@,
            last_call_uas@,
            rejected_before as nat,
        ) {
            Verdict::TryAgain => r is None && final(uas_this_task)@ == old(uas_this_task)@,
            _ => r matches Some(taken) && taken@ == candidate@ && final(uas_this_task)@ == old(
                uas_this_task,
            )@.insert(candidate@),
        },
{
    match judge_candidate(candidate.as_str(), uas_this_task, last_call_uas, rejected_before) {
        Verdict::TryAgain => None,
        _ => {
            uas_this_task.insert(candidate.clone());
            Some(candidate)
        },
    }
}

/// Picks the identity for the next chunk of a job.
///
/// `last_call_uas` holds what the job before this one used, `uas_this_task`
/// what this job has used so far. Candidates are drawn at random and handed
/// to `take_candidate`, one after the other, until one is taken: the first
/// that is fresh, or else the last of `MAX_UA_GENERATION_ATTEMPTS`. Which
/// string comes back is a matter of chance.
pub fn generate_unique_user_agent(last_call_uas: &IdentitySet, uas_this_task: &mut IdentitySet) -> (r:
    String)
    ensures
        final(uas_this_task)@ == old(uas_this_task)@.insert(r@),
{
    let mut rejected: u8 = 0;
    loop
        invariant
            rejected < MAX_UA_GENERATION_ATTEMPTS,
            uas_this_task@ == old(uas_this_task)@,
        decreases MAX_UA_GENERATION_ATTEMPTS - rejected,
    {
        let candidate = random_user_agent();
        match take_candidate(candidate, last_call_uas, uas_this_task, rejected) {
            Some(taken) => {
                return taken;
            },
            None => {
                rejected += 1;
            },
        }
    }
}

/// The law of rotation. Let a job pick its identities one after the other,
/// each judged against those picked before it in the job and against the
/// identities of the job before. As long as every pick was fresh, that is, as
/// long as the draws allowed for each chunk found a string that was not used
/// yet, no two chunks of the job go out under the same identity, and none
/// under an identity of the job before.
pub proof fn law_fresh_identities_never_repeat(picks: Seq<Seq<char>>, history: Set<Seq<char>>)
    requires
        forall|k: int|
            0 <= k < picks.len() ==> exists|rejected_before: nat|
                verdict_on(#[trigger] picks[k], picks.take(k).to_set(), history, rejected_before)
                    == Verdict::Fresh,
    ensures
        picks.no_duplicates(),
        forall|k: int| 0 <= k < picks.len() ==> !history.contains(#[trigger] picks[k]),
{
    assert forall|i: int, j: int| 0 <= i < j < picks.len() implies picks[i] != picks[j] by {
        assert(picks.take(j)[i] == picks[i]);
        assert(picks.take(j).to_set().contains(picks[i]));
        let rejected_before = choose|rejected_before: nat|
            verdict_on(picks[j], picks.take(j).to_set(), history, rejected_before)
                == Verdict::Fresh;
        assert(!picks.take(j).to_set().contains(picks[j]));
    }
    assert forall|k: int| 0 <= k < picks.len() implies !history.contains(#[trigger] picks[k]) by {
        let rejected_before = choose|rejected_before: nat|
            verdict_on(picks[k], picks.take(k).to_set(), history, rejected_before)
                == Verdict::Fresh;
    }
}

} // verus!
