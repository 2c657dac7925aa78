//! The identity of a channel's current material: a digest that changes when
//! the channel turns active or inactive, when the bridge changes state, or
//! when the set of matching items changes, and not when the same items come
//! back in another order.

use vstd::prelude::*;
use vstd::utf8::encode_utf8;

use crate::digest::{sha256_bytes, sha256_of_bytes};
use crate::dto::{BridgeStateDto, ChannelKindDto};
use crate::runtime::{hex_digest, hex_text};
use crate::text::concat;

verus! {

/// Whether byte string `a` sorts before `b`, byte by byte, a proper prefix first.
pub open spec fn bytes_before(a: Seq<u8>, b: Seq<u8>) -> bool
    decreases a.len(),
{
    if b.len() == 0 {
        false
    } else if a.len() == 0 {
        true
    } else if a[0] != b[0] {
        a[0] < b[0]
    } else {
        bytes_before(a.drop_first(), b.drop_first())
    }
}

pub proof fn lemma_bytes_before_irreflexive(a: Seq<u8>)
    ensures
        !bytes_before(a, a),
    decreases a.len(),
{
    if a.len() > 0 {
        lemma_bytes_before_irreflexive(a.drop_first());
    }
}

pub proof fn lemma_bytes_before_transitive(a: Seq<u8>, b: Seq<u8>, c: Seq<u8>)
    requires
        bytes_before(a, b),
        bytes_before(b, c),
    ensures
        bytes_before(a, c),
    decreases a.len(),
{
    if a.len() > 0 && a[0] == b[0] && b[0] == c[0] {
        lemma_bytes_before_transitive(a.drop_first(), b.drop_first(), c.drop_first());
    }
}

pub proof fn lemma_bytes_before_asymmetric(a: Seq<u8>, b: Seq<u8>)
    requires
        bytes_before(a, b),
    ensures
        !bytes_before(b, a),
    decreases a.len(),
{
    if a.len() > 0 && a[0] == b[0] {
        lemma_bytes_before_asymmetric(a.drop_first(), b.drop_first());
    }
}

pub proof fn lemma_bytes_before_total(a: Seq<u8>, b: Seq<u8>)
    requires
        a != b,
    ensures
        bytes_before(a, b) || bytes_before(b, a),
    decreases a.len(),
{
    if a.len() == 0 {
        if b.len() == 0 {
            assert(a =~= b);
        }
    } else if b.len() == 0 {
    } else if a[0] == b[0] {
        if a.drop_first() == b.drop_first() {
            assert(a.drop_first().len() == b.drop_first().len());
            assert forall|i: int| 0 <= i < a.len() implies a[i] == b[i] by {
                if i > 0 {
                    assert(a[i] == a.drop_first()[i - 1]);
                    assert(b[i] == b.drop_first()[i - 1]);
                }
            }
            assert(a =~= b);
        }
        lemma_bytes_before_total(a.drop_first(), b.drop_first());
    }
}

/// Whether the byte strings are in strictly rising order: sorted, no repeats.
pub open spec fn strictly_sorted(s: Seq<Seq<u8>>) -> bool {
    forall|i: int, j: int| 0 <= i < j < s.len() ==> bytes_before(#[trigger] s[i], #[trigger] s[j])
}

/// Whether `s` and `t` hold the same byte strings, however often.
pub open spec fn same_members(s: Seq<Seq<u8>>, t: Seq<Seq<u8>>) -> bool {
    forall|x: Seq<u8>| s.contains(x) <==> t.contains(x)
}

/// The byte strings of `m`, each once, in rising order.
pub open spec fn material_order(m: Seq<Seq<u8>>) -> Seq<Seq<u8>> {
    choose|s: Seq<Seq<u8>>| strictly_sorted(s) && same_members(s, m)
}

/// Two rising lists of the same byte strings are the same list.
pub proof fn lemma_sorted_members_unique(s: Seq<Seq<u8>>, t: Seq<Seq<u8>>)
    requires
        strictly_sorted(s),
        strictly_sorted(t),
        same_members(s, t),
    ensures
        s == t,
    decreases s.len(),
{
    if s.len() == 0 {
        if t.len() > 0 {
            assert(t.contains(t[0]));
        }
        assert(s =~= t);
    } else {
        assert(s.contains(s[0]));
        assert(t.len() > 0);
        assert(t.contains(t[0]));
        if s[0] != t[0] {
            let j = choose|j: int| 0 <= j < t.len() && t[j] == s[0];
            let i = choose|i: int| 0 <= i < s.len() && s[i] == t[0];
            assert(j > 0);
            assert(i > 0);
            assert(bytes_before(t[0], t[j]));
            assert(bytes_before(s[0], s[i]));
            lemma_bytes_before_asymmetric(s[0], t[0]);
        }
        let s2 = s.drop_first();
        let t2 = t.drop_first();
        assert forall|x: Seq<u8>| s2.contains(x) <==> t2.contains(x) by {
            if s2.contains(x) {
                let i = choose|i: int| 0 <= i < s2.len() && s2[i] == x;
                assert(s[i + 1] == x);
                assert(bytes_before(s[0], s[i + 1]));
                lemma_bytes_before_irreflexive(x);
                assert(t.contains(x));
                let j = choose|j: int| 0 <= j < t.len() && t[j] == x;
                assert(j != 0);
                assert(t2[j - 1] == x);
            }
            if t2.contains(x) {
                let j = choose|j: int| 0 <= j < t2.len() && t2[j] == x;
                assert(t[j + 1] == x);
                assert(bytes_before(t[0], t[j + 1]));
                lemma_bytes_before_irreflexive(x);
                assert(s.contains(x));
                let i = choose|i: int| 0 <= i < s.len() && s[i] == x;
                assert(i != 0);
                assert(s2[i - 1] == x);
            }
        }
        assert forall|i: int, j: int| 0 <= i < j < s2.len() implies bytes_before(#[trigger] s2[i], #[trigger] s2[j]) by {
            assert(s2[i] == s[i + 1] && s2[j] == s[j + 1]);
        }
        assert forall|i: int, j: int| 0 <= i < j < t2.len() implies bytes_before(#[trigger] t2[i], #[trigger] t2[j]) by {
            assert(t2[i] == t[i + 1] && t2[j] == t[j + 1]);
        }
        lemma_sorted_members_unique(s2, t2);
        assert(s =~= t) by {
            assert forall|i: int| 0 <= i < s.len() implies s[i] == t[i] by {
                if i > 0 {
                    assert(s[i] == s2[i - 1]);
                    assert(t[i] == t2[i - 1]);
                }
            }
        }
    }
}

/// `s` with `x` put in its place; unchanged when `x` is already there.
pub open spec fn insert_sorted(s: Seq<Seq<u8>>, x: Seq<u8>) -> Seq<Seq<u8>>
    decreases s.len(),
{
    if s.len() == 0 {
        seq![x]
    } else if s[0] == x {
        s
    } else if bytes_before(x, s[0]) {
        seq![x] + s
    } else {
        seq![s[0]] + insert_sorted(s.drop_first(), x)
    }
}

proof fn lemma_insert_sorted(s: Seq<Seq<u8>>, x: Seq<u8>)
    requires
        strictly_sorted(s),
    ensures
        strictly_sorted(insert_sorted(s, x)),
        forall|y: Seq<u8>| #[trigger] insert_sorted(s, x).contains(y) <==> (s.contains(y) || y == x),
    decreases s.len(),
{
    let r = insert_sorted(s, x);
    if s.len() == 0 {
        assert forall|y: Seq<u8>| #[trigger] r.contains(y) <==> (s.contains(y) || y == x) by {
            if y == x {
                assert(r[0] == x);
            }
        }
    } else if s[0] == x {
        assert(s.contains(s[0]));
    } else if bytes_before(x, s[0]) {
        assert forall|i: int, j: int| 0 <= i < j < r.len() implies bytes_before(#[trigger] r[i], #[trigger] r[j]) by {
            if i == 0 {
                assert(r[j] == s[j - 1]);
                if j - 1 > 0 {
                    lemma_bytes_before_transitive(x, s[0], s[j - 1]);
                }
            } else {
                assert(r[i] == s[i - 1] && r[j] == s[j - 1]);
            }
        }
        assert forall|y: Seq<u8>| #[trigger] r.contains(y) <==> (s.contains(y) || y == x) by {
            if r.contains(y) {
                let k = choose|k: int| 0 <= k < r.len() && r[k] == y;
                if k > 0 {
                    assert(s[k - 1] == y);
                }
            }
            if s.contains(y) {
                let k = choose|k: int| 0 <= k < s.len() && s[k] == y;
                assert(r[k + 1] == y);
            }
            if y == x {
                assert(r[0] == x);
            }
        }
    } else {
        let t = s.drop_first();
        assert forall|i: int, j: int| 0 <= i < j < t.len() implies bytes_before(#[trigger] t[i], #[trigger] t[j]) by {
            assert(t[i] == s[i + 1] && t[j] == s[j + 1]);
        }
        lemma_insert_sorted(t, x);
        let rest = insert_sorted(t, x);
        lemma_bytes_before_total(x, s[0]);
        assert forall|k: int| 0 <= k < rest.len() implies bytes_before(s[0], #[trigger] rest[k]) by {
            assert(rest.contains(rest[k]));
            if rest[k] != x {
                assert(t.contains(rest[k]));
                let m = choose|m: int| 0 <= m < t.len() && t[m] == rest[k];
                assert(s[m + 1] == rest[k]);
            }
        }
        assert forall|i: int, j: int| 0 <= i < j < r.len() implies bytes_before(#[trigger] r[i], #[trigger] r[j]) by {
            assert(r[j] == rest[j - 1]);
            if i > 0 {
                assert(r[i] == rest[i - 1]);
            }
        }
        assert forall|y: Seq<u8>| #[trigger] r.contains(y) <==> (s.contains(y) || y == x) by {
            if r.contains(y) {
                let k = choose|k: int| 0 <= k < r.len() && r[k] == y;
                if k > 0 {
                    assert(rest[k - 1] == y);
                    assert(rest.contains(y));
                    if t.contains(y) {
                        let m = choose|m: int| 0 <= m < t.len() && t[m] == y;
                        assert(s[m + 1] == y);
                    }
                } else {
                    assert(s[0] == y);
                }
            }
            if s.contains(y) {
                let k = choose|k: int| 0 <= k < s.len() && s[k] == y;
                if k == 0 {
                    assert(r[0] == y);
                } else {
                    assert(t[k - 1] == y);
                    assert(rest.contains(y));
                    let m = choose|m: int| 0 <= m < rest.len() && rest[m] == y;
                    assert(r[m + 1] == y);
                }
            }
            if y == x {
                assert(rest.contains(x));
                let m = choose|m: int| 0 <= m < rest.len() && rest[m] == x;
                assert(r[m + 1] == x);
            }
        }
    }
}

proof fn sorted_witness(m: Seq<Seq<u8>>) -> (s: Seq<Seq<u8>>)
    ensures
        strictly_sorted(s),
        same_members(s, m),
    decreases m.len(),
{
    if m.len() == 0 {
        Seq::empty()
    } else {
        let p = m.drop_last();
        let s0 = sorted_witness(p);
        lemma_insert_sorted(s0, m.last());
        let s = insert_sorted(s0, m.last());
        assert forall|y: Seq<u8>| s.contains(y) <==> m.contains(y) by {
            if m.contains(y) {
                let k = choose|k: int| 0 <= k < m.len() && m[k] == y;
                if k < m.len() - 1 {
                    assert(p[k] == y);
                    assert(p.contains(y));
                }
            }
            if p.contains(y) {
                let k = choose|k: int| 0 <= k < p.len() && p[k] == y;
                assert(m[k] == y);
            }
            if y == m.last() {
                assert(m[m.len() - 1] == y);
            }
            assert(s.contains(y) <==> (s0.contains(y) || y == m.last()));
        }
        s
    }
}

/// Every list of byte strings has its rising order: `material_order` is a
/// strictly rising list of the same byte strings.
pub proof fn lemma_material_order_exists(m: Seq<Seq<u8>>)
    ensures
        strictly_sorted(material_order(m)),
        same_members(material_order(m), m),
{
    let w = sorted_witness(m);
    assert(strictly_sorted(w) && same_members(w, m));
}

/// The material key ignores order and repeats: two material lists that hold
/// the same byte strings, in any order and however often, give the same key
/// input.
pub proof fn lemma_material_key_ignores_order(
    channel_id: Seq<char>,
    kind: ChannelKindDto,
    state: BridgeStateDto,
    active: bool,
    m1: Seq<Seq<u8>>,
    m2: Seq<Seq<u8>>,
)
    requires
        same_members(m1, m2),
    ensures
        material_input_spec(channel_id, kind, state, active, m1) == material_input_spec(channel_id, kind, state, active, m2),
{
    lemma_material_order_exists(m1);
    lemma_material_order_exists(m2);
    let o1 = material_order(m1);
    let o2 = material_order(m2);
    assert(same_members(o1, o2));
    lemma_sorted_members_unique(o1, o2);
}

/// An inactive channel's key does not depend on its material at all.
pub proof fn lemma_inactive_key_ignores_material(
    channel_id: Seq<char>,
    kind: ChannelKindDto,
    state: BridgeStateDto,
    m1: Seq<Seq<u8>>,
    m2: Seq<Seq<u8>>,
)
    ensures
        material_input_spec(channel_id, kind, state, false, m1) == material_input_spec(channel_id, kind, state, false, m2),
{
}

fn bytes_before_exec(a: &Vec<u8>, b: &Vec<u8>) -> (r: bool)
    ensures
        r == bytes_before(a@, b@),
{
    let mut i: usize = 0;
    proof {
        assert(a@.skip(0) =~= a@);
        assert(b@.skip(0) =~= b@);
    }
    while i < a.len() && i < b.len() && a[i] == b[i]
        invariant
            i <= a@.len(),
            i <= b@.len(),
            bytes_before(a@, b@) == bytes_before(a@.skip(i as int), b@.skip(i as int)),
        decreases a@.len() - i,
    {
        proof {
            assert(a@.skip(i as int).drop_first() =~= a@.skip(i as int + 1));
            assert(b@.skip(i as int).drop_first() =~= b@.skip(i as int + 1));
        }
        i = i + 1;
    }
    if i == b.len() {
        proof {
            assert(b@.skip(i as int).len() == 0);
        }
        false
    } else if i == a.len() {
        proof {
            assert(a@.skip(i as int).len() == 0);
        }
        true
    } else {
        proof {
            assert(a@.skip(i as int)[0] == a@[i as int]);
            assert(b@.skip(i as int)[0] == b@[i as int]);
        }
        a[i] < b[i]
    }
}

fn bytes_equal(a: &Vec<u8>, b: &Vec<u8>) -> (r: bool)
    ensures
        r == (a@ == b@),
{
    if a.len() != b.len() {
        return false;
    }
    let mut i: usize = 0;
    while i < a.len()
        invariant
            a@.len() == b@.len(),
            i <= a@.len(),
            forall|k: int| 0 <= k < i ==> a@[k] == b@[k],
        decreases a@.len() - i,
    {
        if a[i] != b[i] {
            return false;
        }
        i = i + 1;
    }
    proof {
        assert(a@ =~= b@);
    }
    true
}

/// The views of byte vectors.
pub open spec fn byte_views(v: Seq<Vec<u8>>) -> Seq<Seq<u8>> {
    v.map_values(|b: Vec<u8>| b@)
}

/// The byte strings of `material`, each once, in rising order.
fn sorted_unique(material: Vec<Vec<u8>>) -> (r: Vec<Vec<u8>>)
    ensures
        strictly_sorted(byte_views(r@)),
        same_members(byte_views(r@), byte_views(material@)),
{
    let ghost given = byte_views(material@);
    let ghost n = material@.len();
    let total: usize = material.len();
    let mut rest = material;
    let mut out: Vec<Vec<u8>> = Vec::new();
    let mut t: usize = 0;
    while rest.len() > 0
        invariant
            t + rest@.len() == n,
            n == total,
            n == given.len(),
            byte_views(rest@) == given.subrange(t as int, n as int),
            strictly_sorted(byte_views(out@)),
            same_members(byte_views(out@), given.take(t as int)),
        decreases rest@.len(),
    {
        let ghost rest_before = rest@;
        let m = rest.remove(0);
        proof {
            assert(byte_views(rest_before)[0] == m@);
            assert(m@ == given[t as int]);
            assert(byte_views(rest@) =~= given.subrange(t + 1, n as int)) by {
                assert forall|k: int| 0 <= k < rest@.len() implies byte_views(rest@)[k] == given.subrange(t + 1, n as int)[k] by {
                    assert(rest@[k] == rest_before[k + 1]);
                    assert(byte_views(rest_before)[k + 1] == given.subrange(t as int, n as int)[k + 1]);
                }
            }
        }
        let ghost before = byte_views(out@);
        let mut pos: usize = 0;
        while pos < out.len() && bytes_before_exec(&out[pos], &m)
            invariant
                pos <= out@.len(),
                forall|k: int| 0 <= k < pos ==> bytes_before(#[trigger] byte_views(out@)[k], m@),
            decreases out@.len() - pos,
        {
            pos = pos + 1;
        }
        let duplicate = pos < out.len() && bytes_equal(&out[pos], &m);
        if !duplicate {
            proof {
                if pos < out@.len() {
                    assert(!bytes_before(byte_views(out@)[pos as int], m@));
                    assert(byte_views(out@)[pos as int] != m@);
                    lemma_bytes_before_total(byte_views(out@)[pos as int], m@);
                }
            }
            out.insert(pos, m);
            proof {
                let after = byte_views(out@);
                assert(after =~= before.insert(pos as int, given[t as int]));
                assert forall|i: int, j: int| 0 <= i < j < after.len() implies bytes_before(#[trigger] after[i], #[trigger] after[j]) by {
                    if i < pos && j < pos {
                    } else if i < pos && j == pos {
                    } else if i < pos {
                        assert(after[j] == before[j - 1]);
                        if pos < before.len() {
                            lemma_bytes_before_transitive(after[i], given[t as int], before[pos as int]);
                            if j - 1 > pos {
                                lemma_bytes_before_transitive(after[i], before[pos as int], before[j - 1]);
                            }
                        }
                    } else if i == pos {
                        assert(after[j] == before[j - 1]);
                        if j - 1 > pos {
                            lemma_bytes_before_transitive(given[t as int], before[pos as int], before[j - 1]);
                        }
                    } else {
                        assert(after[i] == before[i - 1]);
                        assert(after[j] == before[j - 1]);
                    }
                }
                assert forall|x: Seq<u8>| after.contains(x) <==> given.take(t + 1).contains(x) by {
                    let g1 = given.take(t + 1);
                    assert(g1 =~= given.take(t as int).push(given[t as int]));
                    if after.contains(x) {
                        let i = choose|i: int| 0 <= i < after.len() && after[i] == x;
                        if i == pos {
                            assert(g1[t as int] == x);
                        } else {
                            if i < pos {
                                assert(before[i] == x);
                            } else {
                                assert(before[i - 1] == x);
                            }
                            assert(before.contains(x));
                            assert(given.take(t as int).contains(x));
                            let j = choose|j: int| 0 <= j < t && given.take(t as int)[j] == x;
                            assert(g1[j] == x);
                        }
                    }
                    if g1.contains(x) {
                        let j = choose|j: int| 0 <= j < g1.len() && g1[j] == x;
                        if j == t {
                            assert(after[pos as int] == x);
                        } else {
                            assert(given.take(t as int)[j] == x);
                            assert(given.take(t as int).contains(x));
                            assert(before.contains(x));
                            let i = choose|i: int| 0 <= i < before.len() && before[i] == x;
                            if i < pos {
                                assert(after[i] == x);
                            } else {
                                assert(after[i + 1] == x);
                            }
                        }
                    }
                }
            }
        } else {
            proof {
                assert(before[pos as int] == given[t as int]);
                assert forall|x: Seq<u8>| before.contains(x) <==> given.take(t + 1).contains(x) by {
                    assert(given.take(t + 1) =~= given.take(t as int).push(given[t as int]));
                    if given.take(t + 1).contains(x) && x == given[t as int] {
                        assert(before.contains(x));
                    }
                }
            }
        }
        t = t + 1;
    }
    proof {
        assert(given.take(n as int) =~= given);
    }
    out
}

fn push_bytes(out: &mut Vec<u8>, b: &[u8])
    ensures
        final(out)@ == old(out)@ + b@,
{
    let mut i: usize = 0;
    while i < b.len()
        invariant
            i <= b@.len(),
            out@ == old(out)@ + b@.take(i as int),
        decreases b@.len() - i,
    {
        out.push(b[i]);
        i = i + 1;
        proof {
            assert(b@.take(i as int) =~= b@.take(i - 1).push(b@[i - 1]));
        }
    }
    proof {
        assert(b@.take(b@.len() as int) =~= b@);
    }
}

/// The name a bridge state goes by in a material key.
pub open spec fn state_name(state: BridgeStateDto) -> Seq<char> {
    match state {
        BridgeStateDto::Clear => "Clear"@,
        BridgeStateDto::Likely => "Likely"@,
        BridgeStateDto::Open => "Open"@,
    }
}

/// Each byte string after a NUL byte, in order.
pub open spec fn separated(s: Seq<Seq<u8>>) -> Seq<u8>
    decreases s.len(),
{
    if s.len() == 0 {
        Seq::empty()
    } else {
        separated(s.drop_last()) + seq![0u8] + s.last()
    }
}

/// What is hashed for a channel's material: the channel, whether it is
/// active, the bridge's state for the bridge, and, while active, each distinct
/// piece of material once, in rising byte order.
pub open spec fn material_input_spec(
    channel_id: Seq<char>,
    kind: ChannelKindDto,
    state: BridgeStateDto,
    active: bool,
    material: Seq<Seq<u8>>,
) -> Seq<u8> {
    encode_utf8("channel-material\0"@) + encode_utf8(channel_id) + seq![0u8]
        + encode_utf8(if active { "active"@ } else { "inactive"@ })
        + (if kind == ChannelKindDto::Bridge { seq![0u8] + encode_utf8(state_name(state)) } else { Seq::empty() })
        + (if active { separated(material_order(material)) } else { Seq::empty() })
}

/// The key of a channel's current material: `material:` and the SHA-256 of
/// `material_input_spec` in hexadecimal. `material` holds the serialised
/// matching items; order and repeats do not matter.
pub fn channel_material_key(
    channel_id: &str,
    kind: ChannelKindDto,
    state: BridgeStateDto,
    active: bool,
    material: Vec<Vec<u8>>,
) -> (r: String)
    ensures
        r@ == "material:"@ + hex_text(sha256_of_bytes(material_input_spec(channel_id@, kind, state, active, byte_views(material@)))),
{
    let ghost m = byte_views(material@);
    let ordered = sorted_unique(material);
    proof {
        let o = byte_views(ordered@);
        assert(strictly_sorted(o) && same_members(o, m));
        let c = material_order(m);
        assert(strictly_sorted(c) && same_members(c, m));
        assert(same_members(o, c));
        lemma_sorted_members_unique(o, c);
    }
    let mut input: Vec<u8> = Vec::new();
    push_bytes(&mut input, "channel-material\0".as_bytes());
    push_bytes(&mut input, channel_id.as_bytes());
    input.push(0u8);
    if active {
        push_bytes(&mut input, "active".as_bytes());
    } else {
        push_bytes(&mut input, "inactive".as_bytes());
    }
    let ghost head = input@;
    if kind == ChannelKindDto::Bridge {
        input.push(0u8);
        let name = match state {
            BridgeStateDto::Clear => "Clear",
            BridgeStateDto::Likely => "Likely",
            BridgeStateDto::Open => "Open",
        };
        push_bytes(&mut input, name.as_bytes());
    }
    let ghost with_state = input@;
    if active {
        let mut i: usize = 0;
        while i < ordered.len()
            invariant
                i <= ordered@.len(),
                input@ == with_state + separated(byte_views(ordered@).take(i as int)),
            decreases ordered@.len() - i,
        {
            input.push(0u8);
            push_bytes(&mut input, ordered[i].as_slice());
            proof {
                assert(byte_views(ordered@).take(i + 1).drop_last() =~= byte_views(ordered@).take(i as int));
            }
            i = i + 1;
        }
        proof {
            assert(byte_views(ordered@).take(ordered@.len() as int) =~= byte_views(ordered@));
        }
    }
    proof {
        assert(input@ =~= material_input_spec(channel_id@, kind, state, active, m));
    }
    let digest = sha256_bytes(input.as_slice());
    let hex = hex_digest(digest.as_slice());
    proof {
        reveal_strlit("material:");
    }
    concat("material:", hex.as_str())
}

} // verus!
