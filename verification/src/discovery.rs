//! Which connected gamepads the backend may open, in which order it tries
//! them, and what it reports about the ones it leaves alone.
use crate::controller::SONY_VENDOR_ID;
use crate::text::{chars_of, fold_ascii, fold_char};
use vstd::multiset::Multiset;
use vstd::prelude::*;

verus! {

/// A compatible gamepad found while enumerating: its instance id and its
/// device path (empty where the platform reports none).
pub struct DeviceCandidate {
    pub id: u32,
    pub path: String,
}

/// Whether a gamepad may be opened: a Sony device, of an allowed product,
/// that reports itself as a PS5 pad.
pub open spec fn compatible(vendor: Option<u16>, product: Option<u16>, is_ps5: bool, allowed: Seq<u16>) -> bool {
    &&& vendor == Some(SONY_VENDOR_ID)
    &&& is_ps5
    &&& product matches Some(p) && allowed.contains(p)
}

/// Whether a gamepad with this vendor, product and type may be opened.
pub fn is_compatible_device(vendor: Option<u16>, product: Option<u16>, is_ps5: bool, allowed: &Vec<u16>) -> (r:
    bool)
    ensures
        r == compatible(vendor, product, is_ps5, allowed@),
{
    let sony = match vendor {
        Some(v) => v == SONY_VENDOR_ID,
        None => false,
    };
    if !sony || !is_ps5 {
        return false;
    }
    match product {
        None => false,
        Some(p) => {
            let mut i: usize = 0;
            while i < allowed.len()
                invariant
                    vendor == Some(SONY_VENDOR_ID),
                    is_ps5,
                    product == Some(p),
                    i <= allowed@.len(),
                    forall|k: int| 0 <= k < i ==> allowed@[k] != p,
                decreases allowed@.len() - i,
            {
                if allowed[i] == p {
                    assert(allowed@[i as int] == p);
                    assert(allowed@.contains(p));
                    return true;
                }
                i += 1;
            }
            false
        },
    }
}

/// The codes of a path's characters with ASCII letters lower-cased: the path
/// as its lower-cased form compares.
pub open spec fn path_key(s: Seq<char>) -> Seq<u32> {
    s.map_values(|c: char| fold_ascii(c))
}

/// Strict lexicographic order on code sequences (a proper prefix comes first).
pub open spec fn codes_before(a: Seq<u32>, b: Seq<u32>) -> bool
    decreases a.len(),
{
    if b.len() == 0 {
        false
    } else if a.len() == 0 {
        true
    } else if a[0] != b[0] {
        a[0] < b[0]
    } else {
        codes_before(a.drop_first(), b.drop_first())
    }
}

/// Whether `a` is tried before `b`: by lower-cased path, then by instance id.
pub open spec fn tried_before(a: DeviceCandidate, b: DeviceCandidate) -> bool {
    let ka = path_key(a.path@);
    let kb = path_key(b.path@);
    codes_before(ka, kb) || (ka == kb && a.id < b.id)
}

/// Whether no candidate comes after one that is tried later than it.
pub open spec fn in_trial_order(s: Seq<DeviceCandidate>) -> bool {
    forall|i: int, j: int| 0 <= i < j < s.len() ==> !tried_before(#[trigger] s[j], #[trigger] s[i])
}

proof fn lemma_codes_before_asymmetric(a: Seq<u32>, b: Seq<u32>)
    ensures
        codes_before(a, b) ==> !codes_before(b, a),
        !codes_before(a, a),
    decreases a.len(),
{
    if a.len() > 0 && b.len() > 0 && a[0] == b[0] {
        lemma_codes_before_asymmetric(a.drop_first(), b.drop_first());
    }
    if a.len() > 0 {
        lemma_codes_before_asymmetric(a.drop_first(), a.drop_first());
    }
}

proof fn lemma_codes_before_transitive(a: Seq<u32>, b: Seq<u32>, c: Seq<u32>)
    requires
        codes_before(a, b),
        codes_before(b, c),
    ensures
        codes_before(a, c),
    decreases a.len(),
{
    if a.len() > 0 && a[0] == b[0] && b[0] == c[0] {
        lemma_codes_before_transitive(a.drop_first(), b.drop_first(), c.drop_first());
    }
}

proof fn lemma_tried_before_order(a: DeviceCandidate, b: DeviceCandidate, c: DeviceCandidate)
    ensures
        tried_before(a, b) ==> !tried_before(b, a),
        tried_before(a, b) && tried_before(b, c) ==> tried_before(a, c),
{
    let (ka, kb, kc) = (path_key(a.path@), path_key(b.path@), path_key(c.path@));
    lemma_codes_before_asymmetric(ka, kb);
    lemma_codes_before_asymmetric(kb, ka);
    lemma_codes_before_asymmetric(ka, ka);
    if codes_before(ka, kb) && codes_before(kb, kc) {
        lemma_codes_before_transitive(ka, kb, kc);
    }
}

/// Whether `a` is tried before `b`.
pub fn tried_first(a: &DeviceCandidate, b: &DeviceCandidate) -> (r: bool)
    ensures
        r == tried_before(*a, *b),
{
    let x = chars_of(a.path.as_str());
    let y = chars_of(b.path.as_str());
    let ghost ka = path_key(x@);
    let ghost kb = path_key(y@);
    let mut i: usize = 0;
    assert(ka.skip(0) =~= ka && kb.skip(0) =~= kb);
    assert(ka.take(0) =~= kb.take(0));
    while i < x.len() && i < y.len()
        invariant
            x@ == a.path@,
            y@ == b.path@,
            ka == path_key(x@),
            kb == path_key(y@),
            i <= x@.len(),
            i <= y@.len(),
            ka.take(i as int) == kb.take(i as int),
            codes_before(ka, kb) == codes_before(ka.skip(i as int), kb.skip(i as int)),
        decreases x@.len() - i,
    {
        let fx = fold_char(x[i]);
        let fy = fold_char(y[i]);
        assert(ka.skip(i as int)[0] == fx && kb.skip(i as int)[0] == fy);
        if fx != fy {
            assert(ka[i as int] != kb[i as int]);
            return fx < fy;
        }
        assert(ka.skip(i as int).drop_first() =~= ka.skip(i + 1));
        assert(kb.skip(i as int).drop_first() =~= kb.skip(i + 1));
        assert(ka.take(i + 1) =~= ka.take(i as int).push(fx));
        assert(kb.take(i + 1) =~= kb.take(i as int).push(fy));
        i += 1;
    }
    if x.len() < y.len() {
        true
    } else if y.len() < x.len() {
        false
    } else {
        assert(ka =~= ka.take(i as int));
        assert(kb =~= kb.take(i as int));
        assert(ka.skip(i as int).len() == 0);
        a.id < b.id
    }
}

/// The candidates in the order in which the backend tries to open them: by
/// lower-cased path, then by instance id.
pub fn order_candidates(candidates: Vec<DeviceCandidate>) -> (r: Vec<DeviceCandidate>)
    ensures
        r@.to_multiset() == candidates@.to_multiset(),
        in_trial_order(r@),
{
    broadcast use {
        vstd::seq_lib::to_multiset_insert,
        vstd::seq_lib::to_multiset_remove,
        vstd::seq_lib::to_multiset_contains,
        vstd::seq_lib::to_multiset_len,
        vstd::multiset::lemma_multiset_empty_len,
        vstd::multiset::group_multiset_axioms,
    };

    let ghost all = candidates@;
    let mut rest = candidates;
    let mut out: Vec<DeviceCandidate> = Vec::new();
    assert(out@.to_multiset() =~= Multiset::empty());
    assert(out@.to_multiset().add(rest@.to_multiset()) =~= all.to_multiset());
    while rest.len() > 0
        invariant
            out@.to_multiset().add(rest@.to_multiset()) == all.to_multiset(),
            in_trial_order(out@),
        decreases rest@.len(),
    {
        let ghost before = rest@;
        let x = rest.remove(0);
        assert(rest@ == before.remove(0) && x == before[0]);
        proof {
            assert(before.contains(x));
            vstd::seq_lib::to_multiset_contains(before, x);
            vstd::seq_lib::to_multiset_remove(before, 0);
        }
        let mut p: usize = 0;
        while p < out.len() && !tried_first(&x, &out[p])
            invariant
                p <= out@.len(),
                forall|k: int| 0 <= k < p ==> !tried_before(x, #[trigger] out@[k]),
            decreases out@.len() - p,
        {
            p += 1;
        }
        let ghost old_out = out@;
        out.insert(p, x);
        proof {
            assert forall|i: int, j: int| 0 <= i < j < out@.len() implies !tried_before(
                #[trigger] out@[j],
                #[trigger] out@[i],
            ) by {
                if j == p as int {
                    assert(out@[i] == old_out[i]);
                } else if i == p as int {
                    let c = old_out[j - 1];
                    let q = old_out[p as int];
                    lemma_tried_before_order(c, x, q);
                    lemma_tried_before_order(x, q, c);
                    if j - 1 > p as int {
                        assert(!tried_before(c, q));
                    }
                } else {
                    let ii = if i < p { i } else { i - 1 };
                    let jj = if j < p { j } else { j - 1 };
                    assert(out@[i] == old_out[ii] && out@[j] == old_out[jj]);
                }
            }
            vstd::seq_lib::to_multiset_insert(old_out, p as int, x);
            assert(out@ == old_out.insert(p as int, x));
            assert(out@.to_multiset().add(rest@.to_multiset()) =~= all.to_multiset());
        }
    }
    assert(rest@.to_multiset() =~= Multiset::empty());
    assert(out@.to_multiset() =~= out@.to_multiset().add(rest@.to_multiset()));
    out
}

/// Whether the open controller is still there: it reports itself connected
/// and is among the compatible candidates found now.
pub fn active_still_present(active: Option<u32>, connected: bool, candidates: &Vec<DeviceCandidate>) -> (r: bool)
    ensures
        r == (active matches Some(id) && connected && exists|k: int|
            0 <= k < candidates@.len() && #[trigger] candidates@[k].id == id),
{
    match active {
        None => false,
        Some(id) => {
            if !connected {
                return false;
            }
            let mut k: usize = 0;
            while k < candidates.len()
                invariant
                    active == Some(id),
                    connected,
                    k <= candidates@.len(),
                    forall|m: int| 0 <= m < k ==> #[trigger] candidates@[m].id != id,
                decreases candidates@.len() - k,
            {
                if candidates[k].id == id {
                    assert(candidates@[k as int].id == id);
                    return true;
                }
                k += 1;
            }
            false
        },
    }
}

/// How many compatible controllers are left unused: every candidate but the
/// open one.
pub fn ignored_device_count(candidates: usize, has_active: bool) -> (r: usize)
    ensures
        r == if has_active && candidates > 0 { candidates - 1 } else { candidates as int },
{
    if has_active {
        candidates.saturating_sub(1)
    } else {
        candidates
    }
}

} // verus!
