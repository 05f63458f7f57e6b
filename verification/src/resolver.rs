//! Endpoint resolution: map a user-supplied identifier to a device of the
//! host enumeration.
//!
//! Identifiers and friendly names are carried as UTF-8 bytes.  Resolution
//! makes three ordered passes over the enumeration: exact id equality,
//! case-insensitive (ASCII) friendly-name equality, then case-insensitive
//! substring match of the query against the friendly name, which uses the
//! host's Unicode lowercase folding.  The first hit wins; ties within a
//! pass go to enumeration order.

use vstd::prelude::*;

verus! {

/// One endpoint of the host enumeration: its opaque device id and its
/// human-readable friendly name, both as UTF-8 bytes.
#[derive(Debug, Clone)]
pub struct DeviceInfo {
    pub id: Vec<u8>,
    pub name: Vec<u8>,
}

/// The pass of the resolver that produced a hit.  A partial-name hit is
/// ambiguous, and callers log a warning for it.
#[derive(Debug, Clone, Copy, PartialEq, Eq, Structural)]
pub enum MatchPass {
    ById,
    ByName,
    ByPartialName,
}

/// ASCII case folding of one byte.
pub open spec fn ascii_lower_byte(b: u8) -> u8 {
    if 65 <= b <= 90 {
        (b + 32) as u8
    } else {
        b
    }
}

/// Byte strings equal up to ASCII case.
pub open spec fn ascii_eq_fold(a: Seq<u8>, b: Seq<u8>) -> bool {
    a.len() == b.len() && forall|i: int|
        0 <= i < a.len() ==> ascii_lower_byte(a[i]) == ascii_lower_byte(b[i])
}

/// The Unicode lowercase folding of a UTF-8 byte string, as the host's
/// `str::to_lowercase` computes it.
pub uninterp spec fn lower_bytes(s: Seq<u8>) -> Seq<u8>;

/// Relies on `str::to_lowercase`: the Unicode lowercase of a string, a pure
/// function of its characters; `String::from_utf8_lossy` and
/// `String::into_bytes` only convert between the byte and string forms.
#[verifier::external_body]
fn lowercase_bytes(s: &[u8]) -> (r: Vec<u8>)
    ensures
        r@ == lower_bytes(s@),
{
    String::from_utf8_lossy(s).to_lowercase().into_bytes()
}

/// `needle` occurs in `hay` starting at position `i`.
pub open spec fn contains_at(hay: Seq<u8>, needle: Seq<u8>, i: int) -> bool {
    &&& 0 <= i
    &&& i + needle.len() <= hay.len()
    &&& hay.subrange(i, i + needle.len()) == needle
}

/// `needle` occurs somewhere in `hay` (everywhere, for the empty needle).
pub open spec fn spec_contains(hay: Seq<u8>, needle: Seq<u8>) -> bool {
    exists|i: int| contains_at(hay, needle, i)
}

/// Byte-string equality.
pub fn bytes_eq(a: &[u8], b: &[u8]) -> (r: bool)
    ensures
        r == (a@ == b@),
{
    if a.len() != b.len() {
        return false;
    }
    let mut i: usize = 0;
    while i < a.len()
        invariant
            i <= a@.len(),
            a@.len() == b@.len(),
            forall|k: int| 0 <= k < i ==> a@[k] == b@[k],
        decreases a@.len() - i,
    {
        if a[i] != b[i] {
            return false;
        }
        i = i + 1;
    }
    proof {
        assert(a@ =~= b@);
    }
    true
}

/// Byte-string equality up to ASCII case.
fn bytes_eq_ignore_ascii_case(a: &[u8], b: &[u8]) -> (r: bool)
    ensures
        r == ascii_eq_fold(a@, b@),
{
    if a.len() != b.len() {
        return false;
    }
    let mut i: usize = 0;
    while i < a.len()
        invariant
            i <= a@.len(),
            a@.len() == b@.len(),
            forall|k: int| 0 <= k < i ==> ascii_lower_byte(a@[k]) == ascii_lower_byte(b@[k]),
        decreases a@.len() - i,
    {
        let x = a[i];
        let y = b[i];
        let xl = if 65 <= x && x <= 90 {
            x + 32
        } else {
            x
        };
        let yl = if 65 <= y && y <= 90 {
            y + 32
        } else {
            y
        };
        if xl != yl {
            return false;
        }
        i = i + 1;
    }
    true
}

/// Whether `needle` occurs in `hay` at position `i`.
fn bytes_match_at(hay: &[u8], needle: &[u8], i: usize) -> (r: bool)
    requires
        i + needle@.len() <= hay@.len(),
    ensures
        r == contains_at(hay@, needle@, i as int),
{
    let hay_len = hay.len();
    let mut j: usize = 0;
    while j < needle.len()
        invariant
            j <= needle@.len(),
            hay_len == hay@.len(),
            forall|k: int| 0 <= k < j ==> hay@[i + k] == needle@[k],
        decreases needle@.len() - j,
    {
        if hay[i + j] != needle[j] {
            proof {
                if contains_at(hay@, needle@, i as int) {
                    assert(hay@.subrange(i as int, i + needle@.len())[j as int] == needle@[
                    j as int]);
                }
            }
            return false;
        }
        j = j + 1;
    }
    proof {
        assert(hay@.subrange(i as int, i + needle@.len()) =~= needle@);
    }
    true
}

/// Whether `needle` occurs anywhere in `hay`.
fn bytes_contains(hay: &[u8], needle: &[u8]) -> (r: bool)
    ensures
        r == spec_contains(hay@, needle@),
{
    if needle.len() > hay.len() {
        proof {
            assert(forall|i: int| !contains_at(hay@, needle@, i));
        }
        return false;
    }
    if needle.len() == 0 {
        proof {
            assert(hay@.subrange(0, 0) =~= needle@);
            assert(contains_at(hay@, needle@, 0));
        }
        return true;
    }
    let last = hay.len() - needle.len();
    let mut i: usize = 0;
    while i <= last
        invariant
            i <= last + 1,
            last == hay@.len() - needle@.len(),
            forall|k: int| 0 <= k < i ==> !contains_at(hay@, needle@, k),
        decreases last + 1 - i,
    {
        if bytes_match_at(hay, needle, i) {
            return true;
        }
        i = i + 1;
    }
    proof {
        assert(forall|k: int| contains_at(hay@, needle@, k) ==> 0 <= k <= last);
    }
    false
}

/// The query matches the device's id exactly.
pub open spec fn id_match(d: DeviceInfo, q: Seq<u8>) -> bool {
    d.id@ == q
}

/// The query equals the device's friendly name up to ASCII case.
pub open spec fn name_match(d: DeviceInfo, q: Seq<u8>) -> bool {
    ascii_eq_fold(d.name@, q)
}

/// The lowercased query occurs in the lowercased friendly name.
pub open spec fn partial_match(d: DeviceInfo, q: Seq<u8>) -> bool {
    spec_contains(lower_bytes(d.name@), lower_bytes(q))
}

/// What a correct resolution looks like: the hit of the earliest pass with
/// a hit, at the earliest index within that pass; `None` exactly when no
/// pass has a hit.
pub open spec fn resolution_ok(
    devices: Seq<DeviceInfo>,
    q: Seq<u8>,
    r: Option<(int, MatchPass)>,
) -> bool {
    match r {
        Some((i, pass)) => {
            &&& 0 <= i < devices.len()
            &&& match pass {
                MatchPass::ById => {
                    &&& id_match(devices[i], q)
                    &&& forall|j: int| 0 <= j < i ==> !id_match(devices[j], q)
                },
                MatchPass::ByName => {
                    &&& name_match(devices[i], q)
                    &&& forall|j: int| 0 <= j < devices.len() ==> !id_match(devices[j], q)
                    &&& forall|j: int| 0 <= j < i ==> !name_match(devices[j], q)
                },
                MatchPass::ByPartialName => {
                    &&& partial_match(devices[i], q)
                    &&& forall|j: int|
                        0 <= j < devices.len() ==> !id_match(devices[j], q) && !name_match(
                            devices[j],
                            q,
                        )
                    &&& forall|j: int| 0 <= j < i ==> !partial_match(devices[j], q)
                },
            }
        },
        None => forall|j: int|
            0 <= j < devices.len() ==> !id_match(devices[j], q) && !name_match(devices[j], q)
                && !partial_match(devices[j], q),
    }
}

/// Resolve a user-supplied identifier against the enumeration by three
/// ordered passes: exact id, case-insensitive exact name, case-insensitive
/// name substring.  Returns the index of the hit and the pass that found
/// it, or `None` when every pass misses.
pub fn find_device_by_id(devices: &Vec<DeviceInfo>, device_id: &[u8]) -> (r: Option<
    (usize, MatchPass),
>)
    ensures
        resolution_ok(
            devices@,
            device_id@,
            match r {
                Some((i, p)) => Some((i as int, p)),
                None => None,
            },
        ),
{
    let n = devices.len();

    let mut i: usize = 0;
    while i < n
        invariant
            i <= n,
            n == devices@.len(),
            forall|j: int| 0 <= j < i ==> !id_match(devices@[j], device_id@),
        decreases n - i,
    {
        if bytes_eq(devices[i].id.as_slice(), device_id) {
            return Some((i, MatchPass::ById));
        }
        i = i + 1;
    }

    let mut i: usize = 0;
    while i < n
        invariant
            i <= n,
            n == devices@.len(),
            forall|j: int| 0 <= j < n ==> !id_match(devices@[j], device_id@),
            forall|j: int| 0 <= j < i ==> !name_match(devices@[j], device_id@),
        decreases n - i,
    {
        if bytes_eq_ignore_ascii_case(devices[i].name.as_slice(), device_id) {
            return Some((i, MatchPass::ByName));
        }
        i = i + 1;
    }

    let query_lower = lowercase_bytes(device_id);
    let mut i: usize = 0;
    while i < n
        invariant
            i <= n,
            n == devices@.len(),
            query_lower@ == lower_bytes(device_id@),
            forall|j: int|
                0 <= j < n ==> !id_match(devices@[j], device_id@) && !name_match(
                    devices@[j],
                    device_id@,
                ),
            forall|j: int| 0 <= j < i ==> !partial_match(devices@[j], device_id@),
        decreases n - i,
    {
        let name_lower = lowercase_bytes(devices[i].name.as_slice());
        if bytes_contains(name_lower.as_slice(), query_lower.as_slice()) {
            return Some((i, MatchPass::ByPartialName));
        }
        i = i + 1;
    }

    None
}

/// Endpoint resolver precedence: when some device matches the query by
/// exact id, any resolution that satisfies the resolver's contract picks
/// an exact-id match — even if other devices match by name or by name
/// substring.
pub proof fn lemma_resolver_precedence(
    devices: Seq<DeviceInfo>,
    q: Seq<u8>,
    r: Option<(int, MatchPass)>,
    i: int,
)
    requires
        resolution_ok(devices, q, r),
        0 <= i < devices.len(),
        id_match(devices[i], q),
    ensures
        match r {
            Some((k, p)) => p == MatchPass::ById && id_match(devices[k], q),
            None => false,
        },
{
}

} // verus!
