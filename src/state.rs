use vstd::prelude::*;

use crate::erasure::{
    chunk_matches, derivation_ok, derive_erasure_chunks_with_proofs_and_root, merkle_root_of,
    blob_chunks, AvailableBlob, ErasureChunk,
};
use crate::error::BenchError;
use itertools::Itertools;
use std::collections::HashMap;

verus! {

broadcast use vstd::std_specs::hash::group_hash_axioms;

/// Largest block size recorded in every template's validation data.
pub const TEMPLATE_MAX_POV_SIZE: u32 = 1024;

/// The run parameters this core reads.
pub struct TestConfiguration {
    pub n_validators: usize,
    pub n_cores: usize,
    pub num_blocks: usize,
    pub pov_sizes: Vec<usize>,
}

/// One unit of recovery work: a template and the discriminator that makes it unique.
#[derive(Clone, Copy, Debug, PartialEq, Eq, Structural)]
pub struct Candidate {
    pub template: usize,
    pub relay_parent: u64,
}

/// The distinct items of `s`, in order of first appearance.
pub open spec fn unique_seq(s: Seq<usize>) -> Seq<usize>
    decreases s.len(),
{
    if s.len() == 0 {
        Seq::empty()
    } else {
        let prev = unique_seq(s.drop_last());
        if prev.contains(s.last()) {
            prev
        } else {
            prev.push(s.last())
        }
    }
}

/// The items of `unique_seq(s)` are distinct and are exactly those of `s`.
pub proof fn lemma_unique_seq(s: Seq<usize>)
    ensures
        unique_seq(s).no_duplicates(),
        forall|x: usize| s.contains(x) <==> #[trigger] unique_seq(s).contains(x),
    decreases s.len(),
{
    if s.len() > 0 {
        let init = s.drop_last();
        lemma_unique_seq(init);
        let prev = unique_seq(init);
        let last = s.last();
        assert forall|x: usize| s.contains(x) <==> #[trigger] unique_seq(s).contains(x) by {
            let u = unique_seq(s);
            assert(s.contains(x) <==> (init.contains(x) || x == last)) by {
                if s.contains(x) {
                    let j = choose|j: int| 0 <= j < s.len() && s[j] == x;
                    if j < s.len() - 1 {
                        assert(init[j] == x);
                    }
                }
                if init.contains(x) {
                    let j = choose|j: int| 0 <= j < init.len() && init[j] == x;
                    assert(s[j] == x);
                }
                if x == last {
                    assert(s[s.len() - 1] == x);
                }
            }
            if !prev.contains(last) {
                assert(u == prev.push(last));
                assert(u[prev.len() as int] == last);
                if prev.contains(x) {
                    let j = choose|j: int| 0 <= j < prev.len() && prev[j] == x;
                    assert(u[j] == x);
                }
                if u.contains(x) {
                    let j = choose|j: int| 0 <= j < u.len() && u[j] == x;
                    if j < prev.len() {
                        assert(prev[j] == x);
                    }
                }
            }
        }
    }
}

/// Relies on itertools::Itertools::unique: the distinct items, in order of first appearance.
#[verifier::external_body]
fn unique_sizes(sizes: &Vec<usize>) -> (r: Vec<usize>)
    ensures
        r@ == unique_seq(sizes@),
{
    sizes.iter().cloned().unique().collect()
}

/// The blob of template `i`, of `size` bytes, seen through its fields.
pub open spec fn is_template_blob(b: AvailableBlob, i: int, size: nat) -> bool {
    &&& b.parent_head@ == seq![7u8, 8u8, 9u8]
    &&& b.relay_parent_number == 0
    &&& b.relay_parent_storage_root@ == Seq::new(32, |_j: int| 0u8)
    &&& b.max_pov_size == TEMPLATE_MAX_POV_SIZE
    &&& b.block_data@ == Seq::new(size, |_j: int| i as u8)
}

/// The workload of a run: the configured sizes and the place reached in their cycle, one
/// template per distinct size with its blob, chunks and root, the minted candidates with a
/// read position, and the index from a candidate's discriminator back to its template.
pub struct TestState {
    pub config: TestConfiguration,
    pub pov_sizes: Vec<usize>,
    pub pov_cursor: usize,
    pub template_sizes: Vec<usize>,
    pub pov_size_to_candidate: HashMap<usize, usize>,
    pub available_data: Vec<AvailableBlob>,
    pub chunks: Vec<Vec<ErasureChunk>>,
    pub erasure_roots: Vec<Vec<u8>>,
    pub candidates: Vec<Candidate>,
    pub candidate_cursor: usize,
    pub candidate_hashes: HashMap<u64, usize>,
}

/// The successor of a place in a cycle of length `len`.
pub open spec fn cycle_next(c: nat, len: nat) -> nat {
    if c + 1 >= len {
        0
    } else {
        c + 1
    }
}

impl TestState {
    /// Each template `i` is the blob of the `i`-th distinct size, with its derived chunk set.
    pub open spec fn templates_derived(&self) -> bool {
        &&& self.available_data.len() == self.template_sizes.len()
        &&& self.chunks.len() == self.template_sizes.len()
        &&& self.erasure_roots.len() == self.template_sizes.len()
        &&& forall|i: int|
            0 <= i < self.template_sizes.len() ==> {
                let n = self.config.n_validators as nat;
                let b = #[trigger] self.available_data@[i];
                &&& is_template_blob(b, i, self.template_sizes@[i] as nat)
                &&& derivation_ok(n, b)
                &&& self.chunks@[i].len() == n
                &&& self.erasure_roots@[i]@ == merkle_root_of(blob_chunks(n, b))
                &&& forall|k: int|
                    0 <= k < n ==> #[trigger] chunk_matches(self.chunks@[i]@[k], k, n, b)
            }
    }

    /// Cursors in range, templates derived from the distinct sizes, the size index and the
    /// reverse index agreeing with them.
    pub open spec fn wf(&self) -> bool {
        &&& self.pov_sizes@ == self.config.pov_sizes@
        &&& (self.pov_cursor < self.pov_sizes.len() || (self.pov_sizes.len() == 0
            && self.pov_cursor == 0))
        &&& self.template_sizes@ == unique_seq(self.pov_sizes@)
        &&& self.template_sizes@.no_duplicates()
        &&& forall|s: usize| #[trigger]
            self.pov_size_to_candidate@.contains_key(s) <==> self.template_sizes@.contains(s)
        &&& forall|i: int|
            0 <= i < self.template_sizes.len() ==> self.pov_size_to_candidate@[#[trigger] self.template_sizes@[i]]
                == i
        &&& forall|s: usize| #[trigger]
            self.pov_sizes@.contains(s) <==> self.template_sizes@.contains(s)
        &&& self.templates_derived()
        &&& (self.candidate_cursor < self.candidates.len() || (self.candidates.len() == 0
            && self.candidate_cursor == 0))
        &&& forall|i: int|
            0 <= i < self.candidates.len() ==> (#[trigger] self.candidates@[i]).template
                < self.template_sizes.len()
        &&& forall|i: int|
            0 <= i < self.candidates.len() ==> {
                let c = #[trigger] self.candidates@[i];
                &&& self.candidate_hashes@.contains_key(c.relay_parent)
                &&& self.candidate_hashes@[c.relay_parent] == c.template
            }
    }

    /// The template that a configured size maps to.
    pub open spec fn template_of(&self, size: usize) -> usize {
        self.pov_size_to_candidate@[size]
    }

    /// The place in the size cycle after `k` steps from `start`.
    pub open spec fn size_cursor_after(&self, start: nat, k: nat) -> nat
        decreases k,
    {
        if k == 0 {
            start
        } else {
            cycle_next(self.size_cursor_after(start, (k - 1) as nat), self.pov_sizes.len() as nat)
        }
    }

    /// Candidate `i` of a generation of candidates that starts at this state.
    pub open spec fn generated_candidate(&self, i: nat) -> Candidate {
        Candidate {
            template: self.template_of(
                self.pov_sizes@[self.size_cursor_after(self.pov_cursor as nat, i) as int],
            ),
            relay_parent: i as u64,
        }
    }

    /// The candidates a generation of `count` yields from this state.
    pub open spec fn generated_candidates(&self, count: nat) -> Seq<Candidate> {
        Seq::new(count, |i: int| self.generated_candidate(i as nat))
    }

    proof fn lemma_cursor_in_range(&self, start: nat, k: nat)
        requires
            start < self.pov_sizes.len(),
        ensures
            self.size_cursor_after(start, k) < self.pov_sizes.len(),
        decreases k,
    {
        if k > 0 {
            self.lemma_cursor_in_range(start, (k - 1) as nat);
        }
    }

    /// Builds the templates: one blob per distinct configured size, in order of first
    /// appearance, each with its chunks and root derived once for the configured validators.
    pub fn new(config: &TestConfiguration) -> (r: Result<TestState, BenchError>)
        ensures
            r is Ok <==> forall|i: int|
                0 <= i < unique_seq(config.pov_sizes@).len() ==> #[trigger] template_derivable(
                    config.n_validators as nat,
                    i,
                    unique_seq(config.pov_sizes@)[i] as nat,
                ),
            r is Err ==> r == Err::<TestState, BenchError>(BenchError::EncodingError),
            r matches Ok(s) ==> {
                &&& s.wf()
                &&& s.config.n_validators == config.n_validators
                &&& s.config.n_cores == config.n_cores
                &&& s.config.num_blocks == config.num_blocks
                &&& s.template_sizes@ == unique_seq(config.pov_sizes@)
                &&& s.pov_cursor == 0
                &&& s.candidates.len() == 0
                &&& s.candidate_hashes@ == Map::<u64, usize>::empty()
            },
    {
        proof {
            lemma_unique_seq(config.pov_sizes@);
        }
        let sizes = unique_sizes(&config.pov_sizes);
        let n = config.n_validators;
        let mut available_data: Vec<AvailableBlob> = Vec::new();
        let mut chunks: Vec<Vec<ErasureChunk>> = Vec::new();
        let mut roots: Vec<Vec<u8>> = Vec::new();
        let mut map: HashMap<usize, usize> = HashMap::new();
        let mut index: usize = 0;
        while index < sizes.len()
            invariant
                sizes@ == unique_seq(config.pov_sizes@),
                sizes@.no_duplicates(),
                n == config.n_validators,
                index <= sizes.len(),
                available_data.len() == index,
                chunks.len() == index,
                roots.len() == index,
                forall|j: int| 0 <= j < index ==> #[trigger] template_derivable(n as nat, j, sizes@[j] as nat),
                forall|s: usize| #[trigger]
                    map@.contains_key(s) <==> (exists|j: int| 0 <= j < index && sizes@[j] == s),
                forall|j: int| 0 <= j < index ==> map@[#[trigger] sizes@[j]] == j,
                forall|j: int|
                    0 <= j < index ==> {
                        let b = #[trigger] available_data@[j];
                        &&& is_template_blob(b, j, sizes@[j] as nat)
                        &&& derivation_ok(n as nat, b)
                        &&& chunks@[j].len() == n
                        &&& roots@[j]@ == merkle_root_of(blob_chunks(n as nat, b))
                        &&& forall|k: int|
                            0 <= k < n ==> #[trigger] chunk_matches(chunks@[j]@[k], k, n as nat, b)
                    },
            decreases sizes.len() - index,
        {
            let size = sizes[index];
            let blob = template_blob(index, size);
            match derive_erasure_chunks_with_proofs_and_root(n, &blob) {
                Ok((set, root)) => {
                    chunks.push(set);
                    roots.push(root);
                },
                Err(e) => {
                    assert(!template_derivable(n as nat, index as int, sizes@[index as int] as nat));
                    return Err(e);
                },
            }
            available_data.push(blob);
            map.insert(size, index);
            proof {
                assert forall|s: usize| #[trigger]
                    map@.contains_key(s) <==> (exists|j: int| 0 <= j < index + 1 && sizes@[j] == s) by {
                    if s == size {
                        assert(sizes@[index as int] == s);
                    }
                    if exists|j: int| 0 <= j < index + 1 && sizes@[j] == s {
                        let j = choose|j: int| 0 <= j < index + 1 && sizes@[j] == s;
                        if j < index {
                            assert(exists|j: int| 0 <= j < index && sizes@[j] == s);
                        }
                    }
                }
            }
            index += 1;
        }
        assert forall|s: usize| #[trigger] map@.contains_key(s) <==> sizes@.contains(s) by {
            if sizes@.contains(s) {
                let j = choose|j: int| 0 <= j < sizes.len() && sizes@[j] == s;
                assert(exists|j: int| 0 <= j < index && sizes@[j] == s);
            }
        }
        let pov_sizes = copy_sizes(&config.pov_sizes);
        let state = TestState {
            config: TestConfiguration {
                n_validators: config.n_validators,
                n_cores: config.n_cores,
                num_blocks: config.num_blocks,
                pov_sizes: copy_sizes(&config.pov_sizes),
            },
            pov_sizes,
            pov_cursor: 0,
            template_sizes: sizes,
            pov_size_to_candidate: map,
            available_data,
            chunks,
            erasure_roots: roots,
            candidates: Vec::new(),
            candidate_cursor: 0,
            candidate_hashes: HashMap::new(),
        };
        Ok(state)
    }

    /// Mints `count` candidates, cycling through the configured sizes from where the last
    /// generation stopped; candidate `i` carries `i` as its discriminator and is recorded in
    /// the reverse index. The read position goes back to the first candidate.
    pub fn generate_candidates(&mut self, count: usize)
        requires
            old(self).wf(),
            count == 0 || old(self).pov_sizes.len() > 0,
        ensures
            final(self).wf(),
            final(self).candidates@ == old(self).generated_candidates(count as nat),
            final(self).candidate_cursor == 0,
            final(self).pov_cursor == old(self).size_cursor_after(
                old(self).pov_cursor as nat,
                count as nat,
            ),
            final(self).config == old(self).config,
            final(self).pov_sizes == old(self).pov_sizes,
            final(self).template_sizes == old(self).template_sizes,
            final(self).pov_size_to_candidate == old(self).pov_size_to_candidate,
            final(self).available_data == old(self).available_data,
            final(self).chunks == old(self).chunks,
            final(self).erasure_roots == old(self).erasure_roots,
    {
        let ghost start = *self;
        let mut out: Vec<Candidate> = Vec::new();
        let mut i: usize = 0;
        while i < count
            invariant
                start.wf(),
                count == 0 || start.pov_sizes.len() > 0,
                i <= count,
                count <= usize::MAX,
                out@ == start.generated_candidates(i as nat),
                self.pov_cursor == start.size_cursor_after(start.pov_cursor as nat, i as nat),
                self.config == start.config,
                self.pov_sizes == start.pov_sizes,
                self.template_sizes == start.template_sizes,
                self.pov_size_to_candidate == start.pov_size_to_candidate,
                self.available_data == start.available_data,
                self.chunks == start.chunks,
                self.erasure_roots == start.erasure_roots,
                self.candidates == start.candidates,
                self.candidate_cursor == start.candidate_cursor,
                forall|j: int|
                    0 <= j < out.len() ==> {
                        let c = #[trigger] out@[j];
                        &&& self.candidate_hashes@.contains_key(c.relay_parent)
                        &&& self.candidate_hashes@[c.relay_parent] == c.template
                        &&& c.template < start.template_sizes.len()
                        &&& c.relay_parent == j
                    },
            decreases count - i,
        {
            proof {
                start.lemma_cursor_in_range(start.pov_cursor as nat, i as nat);
            }
            let size = self.pov_sizes[self.pov_cursor];
            assert(start.pov_sizes@.contains(size));
            assert(start.template_sizes@.contains(size));
            let template = *self.pov_size_to_candidate.get(&size).unwrap();
            proof {
                let k = choose|k: int| 0 <= k < start.template_sizes.len() && start.template_sizes@[k] == size;
                assert(start.pov_size_to_candidate@[start.template_sizes@[k]] == k);
            }
            self.pov_cursor = if self.pov_cursor + 1 >= self.pov_sizes.len() {
                0
            } else {
                self.pov_cursor + 1
            };
            let candidate = Candidate { template, relay_parent: i as u64 };
            self.candidate_hashes.insert(i as u64, template);
            out.push(candidate);
            assert(out@ =~= start.generated_candidates((i + 1) as nat));
            i += 1;
        }
        self.candidates = out;
        self.candidate_cursor = 0;
    }

    /// Hands out the candidate at the read position and moves it on, wrapping round after
    /// the last one; there is none to hand out before a generation.
    pub fn next_candidate(&mut self) -> (r: Option<Candidate>)
        requires
            old(self).wf(),
        ensures
            final(self).wf(),
            old(self).candidates.len() == 0 ==> r is None && *final(self) == *old(self),
            old(self).candidates.len() > 0 ==> {
                &&& r == Some(old(self).candidates@[old(self).candidate_cursor as int])
                &&& *final(self) == (TestState {
                    candidate_cursor: cycle_next(
                        old(self).candidate_cursor as nat,
                        old(self).candidates.len() as nat,
                    ) as usize,
                    ..*old(self)
                })
            },
    {
        if self.candidates.len() == 0 {
            return None;
        }
        let c = self.candidates[self.candidate_cursor];
        self.candidate_cursor = if self.candidate_cursor + 1 >= self.candidates.len() {
            0
        } else {
            self.candidate_cursor + 1
        };
        Some(c)
    }

    /// The template that a candidate's discriminator was recorded against.
    pub fn template_of_candidate(&self, relay_parent: u64) -> (r: Option<usize>)
        requires
            self.wf(),
        ensures
            r == (if self.candidate_hashes@.contains_key(relay_parent) {
                Some(self.candidate_hashes@[relay_parent])
            } else {
                None::<usize>
            }),
    {
        match self.candidate_hashes.get(&relay_parent) {
            Some(t) => Some(*t),
            None => None,
        }
    }
}

/// A generation of `count` candidates yields exactly `count` candidates with distinct
/// discriminators, and the reverse index resolves each to its template, which is in range.
pub proof fn lemma_generated_ids_distinct(before: TestState, after: TestState, count: nat)
    requires
        before.wf(),
        after.wf(),
        count <= u64::MAX + 1,
        after.candidates@ == before.generated_candidates(count),
        after.template_sizes == before.template_sizes,
    ensures
        after.candidates.len() == count,
        forall|i: int, j: int|
            0 <= i < j < count ==> (#[trigger] after.candidates@[i]).relay_parent
                != (#[trigger] after.candidates@[j]).relay_parent,
        forall|i: int|
            0 <= i < count ==> {
                let c = #[trigger] after.candidates@[i];
                &&& after.candidate_hashes@.contains_key(c.relay_parent)
                &&& after.candidate_hashes@[c.relay_parent] == c.template
                &&& c.template < before.template_sizes.len()
            },
{
    assert forall|i: int, j: int|
        0 <= i < j < count implies (#[trigger] after.candidates@[i]).relay_parent
            != (#[trigger] after.candidates@[j]).relay_parent by {
        assert(after.candidates@[i].relay_parent == i as u64);
        assert(after.candidates@[j].relay_parent == j as u64);
    }
}

/// Two states built from the same configured sizes, at the same place in their cycle,
/// generate the same candidates.
pub proof fn lemma_generation_reproducible(a: TestState, b: TestState, count: nat)
    requires
        a.wf(),
        b.wf(),
        a.pov_sizes@ == b.pov_sizes@,
        a.pov_cursor == b.pov_cursor,
        count == 0 || a.pov_sizes.len() > 0,
    ensures
        a.generated_candidates(count) == b.generated_candidates(count),
{
    assert forall|i: int| 0 <= i < count implies #[trigger] a.generated_candidate(i as nat)
        == b.generated_candidate(i as nat) by {
        assert(a.size_cursor_after(a.pov_cursor as nat, i as nat) == b.size_cursor_after(
            b.pov_cursor as nat,
            i as nat,
        )) by {
            lemma_same_cursor(a, b, a.pov_cursor as nat, i as nat);
        }
        a.lemma_cursor_in_range(a.pov_cursor as nat, i as nat);
        let size = a.pov_sizes@[a.size_cursor_after(a.pov_cursor as nat, i as nat) as int];
        assert(a.pov_sizes@.contains(size));
        assert(a.template_sizes@.contains(size));
        let k = choose|k: int| 0 <= k < a.template_sizes.len() && a.template_sizes@[k] == size;
        assert(a.pov_size_to_candidate@[a.template_sizes@[k]] == k);
        assert(b.template_sizes@[k] == size);
        assert(b.pov_size_to_candidate@[b.template_sizes@[k]] == k);
    }
    assert(a.generated_candidates(count) =~= b.generated_candidates(count));
}

proof fn lemma_same_cursor(a: TestState, b: TestState, start: nat, k: nat)
    requires
        a.pov_sizes@.len() == b.pov_sizes@.len(),
    ensures
        a.size_cursor_after(start, k) == b.size_cursor_after(start, k),
    decreases k,
{
    if k > 0 {
        lemma_same_cursor(a, b, start, (k - 1) as nat);
    }
}

/// Template `i` of `size` bytes can be derived for `n` validators.
pub open spec fn template_derivable(n: nat, i: int, size: nat) -> bool {
    crate::erasure::valid_validator_count(n) && crate::erasure::merkle_proofs_of(
        crate::erasure::erasure_chunks_of(
            n,
            seq![7u8, 8u8, 9u8],
            0,
            Seq::new(32, |_j: int| 0u8),
            TEMPLATE_MAX_POV_SIZE,
            Seq::new(size, |_j: int| i as u8),
        ),
    ).len() == n
}

/// The blob of template `index`: fixed validation data and `size` bytes of `index`.
fn template_blob(index: usize, size: usize) -> (b: AvailableBlob)
    ensures
        is_template_blob(b, index as int, size as nat),
{
    let block_data = vec![index as u8; size];
    assert(block_data@ =~= Seq::new(size as nat, |_j: int| index as u8));
    let parent_head = vec![7u8, 8u8, 9u8];
    assert(parent_head@ =~= seq![7u8, 8u8, 9u8]);
    let root = [0u8; 32];
    assert(root@ =~= Seq::new(32, |_j: int| 0u8));
    AvailableBlob {
        parent_head,
        relay_parent_number: 0,
        relay_parent_storage_root: root,
        max_pov_size: TEMPLATE_MAX_POV_SIZE,
        block_data,
    }
}

fn copy_sizes(v: &Vec<usize>) -> (r: Vec<usize>)
    ensures
        r@ == v@,
{
    let mut r: Vec<usize> = Vec::new();
    let mut i: usize = 0;
    while i < v.len()
        invariant
            i <= v.len(),
            r@ == v@.subrange(0, i as int),
        decreases v.len() - i,
    {
        r.push(v[i]);
        assert(r@ =~= v@.subrange(0, i + 1));
        i += 1;
    }
    assert(r@ =~= v@);
    r
}

} // verus!
