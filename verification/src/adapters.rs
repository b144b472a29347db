use vstd::prelude::*;

verus! {

use crate::error::CollectorError;
use crate::model::AdapterInfo;
use crate::text::str_eq;

/// The first registered adapter whose identifier matches, in registration
/// order; an unknown identifier is reported as `AdapterNotFound`, whose
/// message repeats the identifier.
pub fn find_adapter(adapters: &Vec<AdapterInfo>, adapter_id: &str) -> (r: Result<
    usize,
    CollectorError,
>)
    ensures
        r matches Ok(i) ==> i < adapters@.len() && adapters@[i as int].id@ == adapter_id@ && (
        forall|j: int| 0 <= j < i ==> (#[trigger] adapters@[j]).id@ != adapter_id@),
        r is Err <==> (forall|j: int|
            0 <= j < adapters@.len() ==> (#[trigger] adapters@[j]).id@ != adapter_id@),
        r matches Err(e) ==> e matches CollectorError::AdapterNotFound(s) && s@ == adapter_id@,
{
    let mut i: usize = 0;
    while i < adapters.len()
        invariant
            i <= adapters@.len(),
            forall|j: int| 0 <= j < i ==> (#[trigger] adapters@[j]).id@ != adapter_id@,
        decreases adapters@.len() - i,
    {
        if str_eq(adapters[i].id.as_str(), adapter_id) {
            return Ok(i);
        }
        i = i + 1;
    }
    Err(
        CollectorError::AdapterNotFound(
            <String as vstd::string::StringExecFns>::from_str(adapter_id),
        ),
    )
}

/// One adapter with the peripherals enumerated on it, as the describe
/// endpoint reports them.
#[derive(Debug)]
pub struct AdapterDto {
    pub adapter_info: AdapterInfo,
    pub peripherals: Vec<PeripheralDto>,
}

/// One enumerated peripheral: its platform identifier, address, and the
/// services it advertises.
#[derive(Debug)]
pub struct PeripheralDto {
    pub id: String,
    pub address: u64,
    pub services: Vec<ServiceDto>,
}

/// One advertised service and its characteristics.
#[derive(Debug)]
pub struct ServiceDto {
    pub uuid: u128,
    pub primary: bool,
    pub characteristics: Vec<u128>,
}

/// Whether some listed adapter carries the identifier.
pub open spec fn spec_has_id(s: Seq<AdapterDto>, id: Seq<char>) -> bool {
    exists|a: int| 0 <= a < s.len() && (#[trigger] s[a]).adapter_info.id@ == id
}

/// The deduplication itself: first description per identifier kept, later
/// duplicates dropped, order preserved.
pub open spec fn spec_dedup(s: Seq<AdapterDto>) -> Seq<AdapterDto>
    decreases s.len(),
{
    if s.len() == 0 {
        Seq::empty()
    } else {
        let rest = spec_dedup(s.drop_last());
        if spec_has_id(rest, s.last().adapter_info.id@) {
            rest
        } else {
            rest.push(s.last())
        }
    }
}

/// What the deduplication keeps: each identifier once, every kept
/// description one of the inputs, every input identifier represented.
pub proof fn lemma_dedup_properties(s: Seq<AdapterDto>)
    ensures
        forall|a: int, b: int|
            0 <= a < b < spec_dedup(s).len() ==> (#[trigger] spec_dedup(s)[a]).adapter_info.id@
                != (#[trigger] spec_dedup(s)[b]).adapter_info.id@,
        forall|a: int| 0 <= a < spec_dedup(s).len() ==> s.contains(#[trigger] spec_dedup(s)[a]),
        forall|j: int|
            0 <= j < s.len() ==> spec_has_id(spec_dedup(s), (#[trigger] s[j]).adapter_info.id@),
    decreases s.len(),
{
    if s.len() > 0 {
        lemma_dedup_properties(s.drop_last());
        let rest = spec_dedup(s.drop_last());
        let whole = spec_dedup(s);
        assert forall|a: int| 0 <= a < whole.len() implies s.contains(#[trigger] whole[a]) by {
            if a < rest.len() {
                assert(s.drop_last().contains(rest[a]));
                let j = choose|j: int|
                    0 <= j < s.drop_last().len() && s.drop_last()[j] == rest[a];
                assert(s[j] == whole[a]);
            } else {
                assert(whole[a] == s.last());
                assert(s[s.len() - 1] == s.last());
            }
        }
        assert forall|j: int| 0 <= j < s.len() implies spec_has_id(
            whole,
            (#[trigger] s[j]).adapter_info.id@,
        ) by {
            if j < s.len() - 1 {
                assert(s.drop_last()[j] == s[j]);
                let a = choose|a: int|
                    0 <= a < rest.len() && (#[trigger] rest[a]).adapter_info.id@
                        == s[j].adapter_info.id@;
                assert(whole[a] == rest[a]);
            } else {
                if spec_has_id(rest, s.last().adapter_info.id@) {
                    let a = choose|a: int|
                        0 <= a < rest.len() && (#[trigger] rest[a]).adapter_info.id@
                            == s.last().adapter_info.id@;
                    assert(whole[a] == rest[a]);
                } else {
                    assert(whole[whole.len() - 1] == s.last());
                }
            }
        }
        assert forall|a: int, b: int|
            0 <= a < b < whole.len() implies (#[trigger] whole[a]).adapter_info.id@ != (
        #[trigger] whole[b]).adapter_info.id@ by {
            if b < rest.len() {
                assert(whole[a] == rest[a] && whole[b] == rest[b]);
            } else if !spec_has_id(rest, s.last().adapter_info.id@) && b == rest.len() {
                assert(whole[a] == rest[a]);
                assert(whole[b] == s.last());
                if whole[a].adapter_info.id@ == s.last().adapter_info.id@ {
                    assert(spec_has_id(rest, s.last().adapter_info.id@));
                }
            }
        }
    }
}

/// Keeps the first description of each adapter identifier and drops later
/// duplicates, preserving order: concurrent enumeration may describe one
/// adapter several times.
#[verifier::loop_isolation(false)]
pub fn dedup_adapters(dtos: Vec<AdapterDto>) -> (r: Vec<AdapterDto>)
    ensures
        r@ == spec_dedup(dtos@),
{
    let ghost dseq = dtos@;
    let mut r: Vec<AdapterDto> = Vec::new();
    let mut rest = dtos;
    let total = rest.len();
    let mut consumed: usize = 0;
    proof {
        assert(rest@ =~= dseq.skip(0));
        assert(r@ =~= spec_dedup(dseq.take(0)));
    }
    while rest.len() > 0
        invariant
            consumed <= dseq.len(),
            total == dseq.len(),
            rest@ == dseq.skip(consumed as int),
            r@ == spec_dedup(dseq.take(consumed as int)),
        decreases rest@.len(),
    {
        proof {
            assert(dseq.skip(consumed as int).len() > 0);
            assert(consumed < dseq.len());
        }
        let d = rest.remove(0);
        proof {
            assert(d == dseq[consumed as int]);
            assert(rest@ =~= dseq.skip(consumed + 1));
        }
        let mut seen = false;
        let mut k: usize = 0;
        while k < r.len()
            invariant
                k <= r@.len(),
                d == dseq[consumed as int],
                seen <==> exists|a: int|
                    0 <= a < k && (#[trigger] r@[a]).adapter_info.id@ == d.adapter_info.id@,
            decreases r@.len() - k,
        {
            if str_eq(r[k].adapter_info.id.as_str(), d.adapter_info.id.as_str()) {
                seen = true;
            }
            k = k + 1;
        }
        proof {
            assert(seen == spec_has_id(r@, d.adapter_info.id@));
            assert(dseq.take(consumed + 1).drop_last() =~= dseq.take(consumed as int));
            assert(dseq.take(consumed + 1).last() == dseq[consumed as int]);
        }
        if !seen {
            r.push(d);
        }
        proof {
            assert(r@ =~= spec_dedup(dseq.take(consumed + 1)));
        }
        consumed = consumed + 1;
    }
    proof {
        assert(dseq.take(consumed as int) =~= dseq);
    }
    r
}

} // verus!
