use vstd::prelude::*;

use vstd::utf8::encode_utf8;

verus! {

/// The starting state of the extractor id hash.
pub const FNV_OFFSET_BASIS: u64 = 14695981039346656037;

/// The multiplier of the extractor id hash.
pub const FNV_PRIME: u64 = 1099511628211;

/// One step of the FNV-1a hash: fold one byte in.
pub open spec fn spec_fnv1a_step(hash: u64, byte: u8) -> u64 {
    vstd::wrapping::u64_specs::wrapping_mul(hash ^ (byte as u64), FNV_PRIME)
}

/// The 64-bit FNV-1a hash of a byte sequence.
pub open spec fn spec_fnv1a(bytes: Seq<u8>) -> u64
    decreases bytes.len(),
{
    if bytes.len() == 0 {
        FNV_OFFSET_BASIS
    } else {
        spec_fnv1a_step(spec_fnv1a(bytes.drop_last()), bytes.last())
    }
}

/// The stable identity of an extractor: the FNV-1a hash of the UTF-8
/// encoding of its source text.  It is deterministic across process
/// runs and insensitive to declaration order.
pub open spec fn spec_extractor_id(text: Seq<char>) -> u64 {
    spec_fnv1a(encode_utf8(text))
}

/// The 64-bit FNV-1a hash of a byte slice.
pub fn fnv1a(bytes: &[u8]) -> (r: u64)
    ensures
        r == spec_fnv1a(bytes@),
{
    let mut hash: u64 = FNV_OFFSET_BASIS;
    let mut i: usize = 0;
    #[verifier::loop_isolation(false)]
    while i < bytes.len()
        invariant
            0 <= i <= bytes@.len(),
            hash == spec_fnv1a(bytes@.subrange(0, i as int)),
        decreases bytes@.len() - i,
    {
        let byte = bytes[i];
        proof {
            let ext = bytes@.subrange(0, i as int + 1);
            assert(ext.drop_last() =~= bytes@.subrange(0, i as int));
            assert(ext.last() == bytes@[i as int]);
        }
        hash = (hash ^ (byte as u64)).wrapping_mul(FNV_PRIME);
        i = i + 1;
    }
    proof {
        assert(bytes@.subrange(0, bytes@.len() as int) =~= bytes@);
    }
    hash
}

/// The stable id of an extractor's source text.
pub fn extractor_id(source: &str) -> (r: u64)
    ensures
        r == spec_extractor_id(source@),
{
    fnv1a(source.as_bytes())
}

/// Why registering an extractor failed.
#[derive(Debug, Clone, PartialEq, Eq)]
pub enum RegistryError {
    /// Two distinct source texts hash to the same id; the
    /// specification must be rejected rather than silently confusing
    /// the two extractors.
    IdCollision { id: u64 },
}

/// Maps each registered extractor's stable id to its source text, so
/// that the host knows which extractors to run against each captured
/// state.  Ids are hashes of the source, so adding or removing other
/// extractors never disturbs an id.
#[derive(Debug, PartialEq, Eq)]
pub struct ExtractorRegistry {
    entries: Vec<(u64, String)>,
}

impl ExtractorRegistry {
    /// The registered extractors, in registration order.
    pub closed spec fn spec_entries(&self) -> Seq<(u64, Seq<char>)> {
        Seq::new(self.entries@.len(), |i: int| (self.entries@[i].0, self.entries@[i].1@))
    }

    /// Every stored id is the hash of its source, and ids never
    /// repeat.
    pub closed spec fn wf(&self) -> bool {
        &&& forall|i: int| 0 <= i < self.entries@.len() ==> (#[trigger] self.entries@[i]).0
            == spec_extractor_id(self.entries@[i].1@)
        &&& forall|i: int, j: int| 0 <= i < j < self.entries@.len()
            ==> (#[trigger] self.entries@[i]).0 != (#[trigger] self.entries@[j]).0
    }

    /// An empty registry.
    pub fn new() -> (r: ExtractorRegistry)
        ensures
            r.wf(),
            r.spec_entries().len() == 0,
    {
        ExtractorRegistry { entries: Vec::new() }
    }

    /// Register one extractor source: the result is its stable id.
    /// Registering the same source twice is harmless; two distinct
    /// sources with the same id are a collision and rejected.
    pub fn register(&mut self, source: String) -> (r: Result<u64, RegistryError>)
        requires
            old(self).wf(),
        ensures
            final(self).wf(),
            match r {
                Ok(id) => {
                    &&& id == spec_extractor_id(source@)
                    &&& final(self).spec_entries().contains((id, source@))
                    &&& (old(self).spec_entries().contains((id, source@)) ==> final(self)
                        .spec_entries() == old(self).spec_entries())
                    &&& (!old(self).spec_entries().contains((id, source@)) ==> final(self)
                        .spec_entries() == old(self).spec_entries().push((id, source@)))
                },
                Err(RegistryError::IdCollision { id }) => {
                    &&& id == spec_extractor_id(source@)
                    &&& *final(self) == *old(self)
                    &&& exists|i: int| 0 <= i < old(self).spec_entries().len() && (#[trigger] old(
                        self,
                    ).spec_entries()[i]).0 == id && old(self).spec_entries()[i].1 != source@
                },
            },
    {
        let id = extractor_id(source.as_str());
        let mut i: usize = 0;
        #[verifier::loop_isolation(false)]
        while i < self.entries.len()
            invariant
                old(self) == self,
                old(self).wf(),
                id == spec_extractor_id(source@),
                0 <= i <= self.entries@.len(),
                forall|j: int| 0 <= j < i ==> (#[trigger] self.entries@[j]).0 != id,
            decreases self.entries@.len() - i,
        {
            if self.entries[i].0 == id {
                if self.entries[i].1 == source {
                    proof {
                        assert(self.spec_entries()[i as int] == (id, source@));
                    }
                    return Ok(id);
                } else {
                    proof {
                        assert((old(self).spec_entries()[i as int]).0 == id);
                        assert(old(self).spec_entries()[i as int].1 != source@);
                    }
                    return Err(RegistryError::IdCollision { id });
                }
            }
            i = i + 1;
        }
        proof {
            assert(forall|j: int| 0 <= j < self.entries@.len() ==> (#[trigger] self.entries@[j]).0
                != id);
            if old(self).spec_entries().contains((id, source@)) {
                let w = choose|w: int| 0 <= w < old(self).spec_entries().len() && old(
                    self,
                ).spec_entries()[w] == (id, source@);
                assert((self.entries@[w]).0 == id);
            }
        }
        let ghost before = self.spec_entries();
        self.entries.push((id, source));
        proof {
            assert(self.spec_entries() =~= before.push((id, source@)));
            assert(self.spec_entries()[before.len() as int] == (id, source@));
        }
        Ok(id)
    }

    /// The registered extractors, as pairs of id and source text, in
    /// registration order; the host runs each source against every
    /// captured state and reports the value under the id.
    pub fn extract_functions(&self) -> (r: Vec<(u64, String)>)
        ensures
            r@.len() == self.spec_entries().len(),
            forall|i: int| 0 <= i < r@.len() ==> (#[trigger] r@[i]).0 == self.spec_entries()[i].0
                && r@[i].1@ == self.spec_entries()[i].1,
    {
        let mut out: Vec<(u64, String)> = Vec::new();
        let mut i: usize = 0;
        #[verifier::loop_isolation(false)]
        while i < self.entries.len()
            invariant
                0 <= i <= self.entries@.len(),
                out@.len() == i,
                forall|j: int| 0 <= j < i ==> (#[trigger] out@[j]).0 == self.spec_entries()[j].0
                    && out@[j].1@ == self.spec_entries()[j].1,
            decreases self.entries@.len() - i,
        {
            let id = self.entries[i].0;
            let text = self.entries[i].1.clone();
            out.push((id, text));
            i = i + 1;
        }
        out
    }

    /// How many extractors are registered.
    pub fn len(&self) -> (n: usize)
        ensures
            n == self.spec_entries().len(),
    {
        self.entries.len()
    }
}

} // verus!
