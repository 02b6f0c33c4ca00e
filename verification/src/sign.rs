use vstd::prelude::*;
use vstd::utf8::encode_utf8;
use vstd::multiset::Multiset;
use crate::text::{string_push, push_str, HEX_DIGITS, lex_le, lemma_lex_le_reflexive, lemma_lex_le_antisymmetric, lemma_lex_le_transitive, lemma_lex_le_connected, str_le};

verus! {

/// Whether a byte is escaped by the query percent-encoding.
///
/// The set is the user-info escaping set of URLs — every byte outside
/// `0x20..=0x7E`, the space, `"`, `#`, `<`, `>`, backtick, `?`, `{`, `}`,
/// `/`, `:`, `;`, `=`, `@`, `[`, `\`, `]`, `^` and `|` — extended with `+`
/// and `,`, to which the exchange's signature verification is sensitive.
pub open spec fn is_pct_escaped(b: u8) -> bool {
    ||| b < 0x20
    ||| b > 0x7E
    ||| b == 0x20  // space
    ||| b == 0x22  // "
    ||| b == 0x23  // #
    ||| b == 0x3C  // <
    ||| b == 0x3E  // >
    ||| b == 0x60  // `
    ||| b == 0x3F  // ?
    ||| b == 0x7B  // {
    ||| b == 0x7D  // }
    ||| b == 0x2F  // /
    ||| b == 0x3A  // :
    ||| b == 0x3B  // ;
    ||| b == 0x3D  // =
    ||| b == 0x40  // @
    ||| b == 0x5B  // [
    ||| b == 0x5C  // backslash
    ||| b == 0x5D  // ]
    ||| b == 0x5E  // ^
    ||| b == 0x7C  // |
    ||| b == 0x2B  // +
    ||| b == 0x2C  // ,
}

fn is_escaped_byte(b: u8) -> (r: bool)
    ensures
        r == is_pct_escaped(b),
{
    b < 0x20 || b > 0x7E || b == 0x20 || b == 0x22 || b == 0x23 || b == 0x3C || b == 0x3E || b
        == 0x60 || b == 0x3F || b == 0x7B || b == 0x7D || b == 0x2F || b == 0x3A || b == 0x3B || b
        == 0x3D || b == 0x40 || b == 0x5B || b == 0x5C || b == 0x5D || b == 0x5E || b == 0x7C || b
        == 0x2B || b == 0x2C
}

/// How one byte is written in percent-encoded output: escaped bytes become
/// `%` and two upper-case hex digits, all others stand as themselves.
pub open spec fn pct_char(b: u8) -> Seq<char> {
    if is_pct_escaped(b) {
        seq!['%', HEX_DIGITS@[(b / 16) as int], HEX_DIGITS@[(b % 16) as int]]
    } else {
        seq![b as char]
    }
}

/// The percent-encoding of a byte sequence.
pub open spec fn pe_spec(bs: Seq<u8>) -> Seq<char>
    decreases bs.len(),
{
    if bs.len() == 0 {
        Seq::empty()
    } else {
        pe_spec(bs.drop_last()) + pct_char(bs.last())
    }
}

pub proof fn lemma_pe_spec_len(bs: Seq<u8>)
    ensures
        pe_spec(bs).len() <= 3 * bs.len(),
    decreases bs.len(),
{
    if bs.len() > 0 {
        lemma_pe_spec_len(bs.drop_last());
    }
}

/// The percent-encoding of the UTF-8 bytes of `source`, written over its
/// byte sequence: a value holding `+` or `,` is escaped, never left literal.
pub fn percent_encode(source: &str) -> (r: String)
    ensures
        r@ == pe_spec(encode_utf8(source@)),
{
    let bytes: Vec<u8> = source.as_bytes_vec();
    let n: usize = bytes.len();
    let mut out = String::new();
    assert(bytes@.take(0) =~= Seq::<u8>::empty());
    let mut i: usize = 0;
    while i < n
        invariant
            0 <= i <= n,
            n == bytes@.len(),
            bytes@ == encode_utf8(source@),
            out@ == pe_spec(bytes@.take(i as int)),
        decreases n - i,
    {
        let b = bytes[i];
        if is_escaped_byte(b) {
            string_push(&mut out, '%');
            string_push(&mut out, HEX_DIGITS[(b / 16) as usize]);
            string_push(&mut out, HEX_DIGITS[(b % 16) as usize]);
        } else {
            string_push(&mut out, b as char);
        }
        proof {
            let pre = bytes@.take(i as int);
            let cur = bytes@.take(i + 1);
            assert(cur.drop_last() =~= pre);
            assert(cur.last() == bytes@[i as int]);
            assert(out@ =~= pe_spec(pre) + pct_char(bytes@[i as int]));
        }
        i = i + 1;
    }
    proof {
        assert(bytes@.take(n as int) =~= bytes@);
    }
    out
}

/// No percent-encoded output ever contains a byte of the escape set as a
/// literal character; in particular neither `+` nor `,` appears.
pub proof fn lemma_pe_spec_escapes(bs: Seq<u8>)
    ensures
        forall|i: int|
            0 <= i < pe_spec(bs).len() ==> (#[trigger] pe_spec(bs)[i]) != '+' && pe_spec(bs)[i]
                != ',',
    decreases bs.len(),
{
    if bs.len() > 0 {
        lemma_pe_spec_escapes(bs.drop_last());
        let b = bs.last();
        assert(forall|j: int| 0 <= j < 16 ==> (#[trigger] HEX_DIGITS@[j]) != '+' && HEX_DIGITS@[j]
            != ',');
        assert(forall|i: int|
            0 <= i < pct_char(b).len() ==> (#[trigger] pct_char(b)[i]) != '+' && pct_char(b)[i]
                != ',') by {
            if is_pct_escaped(b) {
                assert(pct_char(b)[0] == '%');
                assert((b / 16) < 16 && (b % 16) < 16);
                assert(pct_char(b)[1] == HEX_DIGITS@[(b / 16) as int]);
                assert(pct_char(b)[2] == HEX_DIGITS@[(b % 16) as int]);
            } else {
                assert(b != 0x2B && b != 0x2C);
                assert(pct_char(b)[0] == (b as char));
                assert((b as char) as u32 == b as u32);
                assert(('+' as u32) == 0x2B && (',' as u32) == 0x2C);
            }
        }
        let left = pe_spec(bs.drop_last());
        assert forall|i: int|
            0 <= i < pe_spec(bs).len() implies (#[trigger] pe_spec(bs)[i]) != '+' && pe_spec(bs)[i]
            != ',' by {
            if i < left.len() {
                assert(pe_spec(bs)[i] == left[i]);
            } else {
                assert(pe_spec(bs)[i] == pct_char(b)[i - left.len()]);
            }
        }
    }
}

/// One `key=value` pair of a query string: the key stands as written, the
/// value percent-encoded.
pub open spec fn enc_pair(p: (Seq<char>, Seq<char>)) -> Seq<char> {
    p.0 + seq!['='] + pe_spec(encode_utf8(p.1))
}

/// The query string for pairs in the given order: `key=value` pairs joined
/// by `&`.
pub open spec fn query_of(pairs: Seq<(Seq<char>, Seq<char>)>) -> Seq<char>
    decreases pairs.len(),
{
    if pairs.len() == 0 {
        Seq::empty()
    } else if pairs.len() == 1 {
        enc_pair(pairs[0])
    } else {
        query_of(pairs.drop_last()) + seq!['&'] + enc_pair(pairs.last())
    }
}

/// The views of a vector of string pairs.
pub open spec fn pairs_view(v: Seq<(String, String)>) -> Seq<(Seq<char>, Seq<char>)> {
    v.map_values(|p: (String, String)| (p.0@, p.1@))
}

/// Builds the query string for the parameters in the order given:
/// `key=value` pairs joined by `&`, values percent-encoded.
pub fn build_query_string(parameters: &Vec<(String, String)>) -> (r: String)
    ensures
        r@ == query_of(pairs_view(parameters@)),
{
    let n: usize = parameters.len();
    let mut out = String::new();
    let mut i: usize = 0;
    assert(pairs_view(parameters@).take(0) =~= Seq::<(Seq<char>, Seq<char>)>::empty());
    while i < n
        invariant
            0 <= i <= n,
            n == parameters@.len(),
            out@ == query_of(pairs_view(parameters@).take(i as int)),
        decreases n - i,
    {
        if i > 0 {
            string_push(&mut out, '&');
        }
        push_str(&mut out, parameters[i].0.as_str());
        string_push(&mut out, '=');
        let enc = percent_encode(parameters[i].1.as_str());
        push_str(&mut out, enc.as_str());
        proof {
            let vs = pairs_view(parameters@);
            let pre = vs.take(i as int);
            let cur = vs.take(i + 1);
            assert(cur.drop_last() =~= pre);
            assert(cur.last() == vs[i as int]);
            assert(vs[i as int].0 == parameters@[i as int].0@);
            assert(vs[i as int].1 == parameters@[i as int].1@);
            if i == 0 {
                assert(out@ =~= enc_pair(vs[0]));
                assert(out@ =~= query_of(cur));
            } else {
                assert(out@ =~= query_of(pre) + seq!['&'] + enc_pair(vs[i as int]));
                assert(out@ =~= query_of(cur));
            }
        }
        i = i + 1;
    }
    proof {
        assert(pairs_view(parameters@).take(n as int) =~= pairs_view(parameters@));
    }
    out
}

/// The order of canonical query parameters: pairs compared by key, ties
/// broken by value, each lexicographically by code point.
pub open spec fn pair_le(x: (Seq<char>, Seq<char>), y: (Seq<char>, Seq<char>)) -> bool {
    if x.0 == y.0 {
        lex_le(x.1, y.1)
    } else {
        lex_le(x.0, y.0)
    }
}

/// [`pair_le`] as a relation value, for sorting.
pub open spec fn pair_le_fn() -> spec_fn((Seq<char>, Seq<char>), (Seq<char>, Seq<char>)) -> bool {
    |x: (Seq<char>, Seq<char>), y: (Seq<char>, Seq<char>)| pair_le(x, y)
}

pub proof fn lemma_pair_le_total_ordering()
    ensures
        vstd::relations::total_ordering(pair_le_fn()),
{
    let leq = pair_le_fn();
    assert forall|x: (Seq<char>, Seq<char>)| #[trigger] leq(x, x) by {
        lemma_lex_le_reflexive(x.1);
    }
    assert forall|x: (Seq<char>, Seq<char>), y: (Seq<char>, Seq<char>)|
        #[trigger] leq(x, y) && #[trigger] leq(y, x) implies x == y by {
        if x.0 == y.0 {
            lemma_lex_le_antisymmetric(x.1, y.1);
        } else {
            lemma_lex_le_antisymmetric(x.0, y.0);
        }
    }
    assert forall|x: (Seq<char>, Seq<char>), y: (Seq<char>, Seq<char>), z: (Seq<char>, Seq<char>)|
        #[trigger] leq(x, y) && #[trigger] leq(y, z) implies leq(x, z) by {
        if x.0 == y.0 && y.0 == z.0 {
            lemma_lex_le_transitive(x.1, y.1, z.1);
        } else if x.0 == y.0 {
            assert(x.0 != z.0);
            assert(lex_le(x.0, z.0));
        } else if y.0 == z.0 {
            assert(x.0 != z.0);
            assert(lex_le(x.0, z.0));
        } else {
            lemma_lex_le_transitive(x.0, y.0, z.0);
            if x.0 == z.0 {
                lemma_lex_le_antisymmetric(x.0, y.0);
            }
        }
    }
    assert forall|x: (Seq<char>, Seq<char>), y: (Seq<char>, Seq<char>)|
        #[trigger] leq(x, y) || #[trigger] leq(y, x) by {
        if x.0 == y.0 {
            lemma_lex_le_connected(x.1, y.1);
        } else {
            lemma_lex_le_connected(x.0, y.0);
        }
    }
}

/// Compares two parameters in the order of [`pair_le`].
fn pair_le_exec(a: &(String, String), b: &(String, String)) -> (r: bool)
    ensures
        r == pair_le((a.0@, a.1@), (b.0@, b.1@)),
{
    if a.0.eq(&b.0) {
        str_le(a.1.as_str(), b.1.as_str())
    } else {
        str_le(a.0.as_str(), b.0.as_str())
    }
}

/// Inserting an element anywhere adds exactly it to the multiset.
proof fn lemma_insert_to_multiset(v: Seq<(Seq<char>, Seq<char>)>, i: int, x: (Seq<char>, Seq<char>))
    requires
        0 <= i <= v.len(),
    ensures
        v.insert(i, x).to_multiset() == v.to_multiset().insert(x),
{
    broadcast use vstd::seq_lib::group_to_multiset_ensures;
    broadcast use vstd::multiset::group_multiset_axioms;

    let left = v.take(i);
    let right = v.skip(i);
    assert(v =~= left + right);
    assert(v.insert(i, x) =~= left + (seq![x] + right));
    vstd::seq_lib::lemma_multiset_commutative(left, right);
    vstd::seq_lib::lemma_multiset_commutative(left, seq![x] + right);
    vstd::seq_lib::lemma_multiset_commutative(seq![x], right);
    assert(seq![x].to_multiset() =~= Multiset::empty().insert(x)) by {
        assert(seq![x].drop_first() =~= Seq::<(Seq<char>, Seq<char>)>::empty());
    }
    assert(v.insert(i, x).to_multiset() =~= v.to_multiset().insert(x));
}

/// Where the new element belongs in the sorted prefix.
fn find_insert_pos(out: &Vec<(String, String)>, e: &(String, String)) -> (pos: usize)
    ensures
        0 <= pos <= out@.len(),
        forall|j: int| 0 <= j < pos ==> pair_le(#[trigger] pairs_view(out@)[j], (e.0@, e.1@)),
        pos < out@.len() ==> !pair_le(pairs_view(out@)[pos as int], (e.0@, e.1@)),
{
    let n: usize = out.len();
    let mut pos: usize = 0;
    while pos < n
        invariant
            0 <= pos <= n,
            n == out@.len(),
            forall|j: int| 0 <= j < pos ==> pair_le(#[trigger] pairs_view(out@)[j], (e.0@, e.1@)),
        decreases n - pos,
    {
        if !pair_le_exec(&out[pos], e) {
            assert(pairs_view(out@)[pos as int] == (out@[pos as int].0@, out@[pos as int].1@));
            return pos;
        }
        assert(pairs_view(out@)[pos as int] == (out@[pos as int].0@, out@[pos as int].1@));
        pos = pos + 1;
    }
    pos
}

/// Sorts parameters into the canonical order of [`pair_le`].
pub fn sort_pairs(input: &Vec<(String, String)>) -> (r: Vec<(String, String)>)
    ensures
        pairs_view(r@) == pairs_view(input@).sort_by(pair_le_fn()),
{
    proof {
        lemma_pair_le_total_ordering();
    }
    let ghost leq = pair_le_fn();
    let n: usize = input.len();
    let mut out: Vec<(String, String)> = Vec::new();
    assert(pairs_view(input@.take(0)) =~= Seq::<(Seq<char>, Seq<char>)>::empty());
    assert(pairs_view(out@) =~= Seq::<(Seq<char>, Seq<char>)>::empty());
    let mut idx: usize = 0;
    while idx < n
        invariant
            0 <= idx <= n,
            n == input@.len(),
            vstd::relations::sorted_by(pairs_view(out@), pair_le_fn()),
            pairs_view(out@).to_multiset() == pairs_view(input@.take(idx as int)).to_multiset(),
            vstd::relations::total_ordering(pair_le_fn()),
        decreases n - idx,
    {
        let e = (input[idx].0.clone(), input[idx].1.clone());
        let pos = find_insert_pos(&out, &e);
        let ghost old_view = pairs_view(out@);
        let ghost ev = (e.0@, e.1@);
        out.insert(pos, e);
        proof {
            assert(pairs_view(out@) =~= old_view.insert(pos as int, ev));
            let nv = pairs_view(out@);
            assert forall|i: int, j: int| 0 <= i < j < nv.len() implies #[trigger] pair_le_fn()(
                nv[i],
                nv[j],
            ) by {
                let leq = pair_le_fn();
                if i < pos && j == pos {
                    assert(nv[i] == old_view[i] && nv[j] == ev);
                } else if i == pos && j > pos {
                    assert(nv[i] == ev && nv[j] == old_view[j - 1]);
                    assert(!leq(old_view[pos as int], ev));
                    assert(leq(ev, old_view[pos as int]));
                    if j - 1 > pos {
                        assert(leq(old_view[pos as int], old_view[j - 1]));
                    }
                } else if i < pos && j > pos {
                    assert(nv[i] == old_view[i] && nv[j] == old_view[j - 1]);
                    if i < j - 1 {
                        assert(leq(old_view[i], old_view[j - 1]));
                    }
                } else if j < pos {
                    assert(nv[i] == old_view[i] && nv[j] == old_view[j]);
                } else if i > pos {
                    assert(nv[i] == old_view[i - 1] && nv[j] == old_view[j - 1]);
                }
            }
            lemma_insert_to_multiset(old_view, pos as int, ev);
            let prev = pairs_view(input@.take(idx as int));
            let cur = pairs_view(input@.take(idx + 1));
            assert(cur.drop_last() =~= prev);
            assert(cur.last() == ev);
            assert(cur =~= prev.push(ev));
            broadcast use vstd::seq_lib::group_to_multiset_ensures;

            assert(cur.to_multiset() =~= prev.to_multiset().insert(ev));
        }
        idx = idx + 1;
    }
    proof {
        assert(input@.take(n as int) =~= input@);
        pairs_view(input@).lemma_sort_by_ensures(pair_le_fn());
        vstd::seq_lib::lemma_sorted_unique(
            pairs_view(out@),
            pairs_view(input@).sort_by(pair_le_fn()),
            pair_le_fn(),
        );
    }
    out
}

/// The canonical query string: parameters in the order of [`pair_le`],
/// `key=value` pairs joined by `&`, values percent-encoded.
pub open spec fn canonical_query_of(pairs: Seq<(Seq<char>, Seq<char>)>) -> Seq<char> {
    query_of(pairs.sort_by(pair_le_fn()))
}

/// Builds the canonical query string for the parameters, in the sorted
/// order, independent of the order in which they are given.
pub fn canonical_query(params: &Vec<(String, String)>) -> (r: String)
    ensures
        r@ == canonical_query_of(pairs_view(params@)),
{
    let sorted = sort_pairs(params);
    build_query_string(&sorted)
}

/// The HMAC-SHA256 tag for a key and a message. The tag is a function of
/// the two arguments alone; its definition is the cryptographic algorithm,
/// which this library does not restate.
pub uninterp spec fn hmac_sha256_of(key: Seq<u8>, data: Seq<u8>) -> Seq<u8>;

/// Relies on ring's `hmac::Key::new` with `HMAC_SHA256` and `hmac::sign`:
/// the tag depends on key and data alone and is 32 bytes long. ring fails
/// on inputs whose bit length overflows a 64-bit counter, so both inputs
/// are kept under 2^61 bytes.
#[verifier::external_body]
fn hmac_sha256(key: &[u8], data: &[u8]) -> (r: Vec<u8>)
    requires
        key@.len() < 0x2000000000000000,
        data@.len() < 0x2000000000000000,
    ensures
        r@ == hmac_sha256_of(key@, data@),
        r@.len() == 32,
{
    let k = ring::hmac::Key::new(ring::hmac::HMAC_SHA256, key);
    ring::hmac::sign(&k, data).as_ref().to_vec()
}

/// The standard base64 encoding, with padding, of a byte sequence.
pub uninterp spec fn base64_of(data: Seq<u8>) -> Seq<char>;

/// Relies on data-encoding's `BASE64.encode`: standard base64 with padding,
/// a function of the input alone, four characters for every started group
/// of three bytes. `encode` may panic on inputs over `usize::MAX / 512`.
#[verifier::external_body]
fn base64_encode(data: &[u8]) -> (r: String)
    requires
        data@.len() <= usize::MAX / 512,
    ensures
        r@ == base64_of(data@),
        r@.len() == 4 * ((data@.len() + 2) / 3),
{
    data_encoding::BASE64.encode(data)
}

/// The base64 signature of a payload under a secret, both given as text
/// and hashed over their UTF-8 bytes.
pub open spec fn mac_of(secret: Seq<char>, payload: Seq<char>) -> Seq<char> {
    base64_of(hmac_sha256_of(encode_utf8(secret), encode_utf8(payload)))
}

/// Signs `digest` with `secret`: base64 of the HMAC-SHA256 tag.
pub fn sign_hmac_sha256_base64(secret: &str, digest: &str) -> (r: String)
    requires
        encode_utf8(secret@).len() < 0x2000000000000000,
        encode_utf8(digest@).len() < 0x2000000000000000,
    ensures
        r@ == mac_of(secret@, digest@),
{
    let tag = hmac_sha256(secret.as_bytes(), digest.as_bytes());
    base64_encode(tag.as_slice())
}

/// Relies on chrono's `Utc::now` and `format`: the current UTC time
/// rendered as `YYYY-MM-DDTHH:MM:SS`, second precision, no timezone
/// suffix. The result depends on the clock, so nothing is promised of it;
/// signing takes the timestamp as an argument.
#[verifier::external_body]
pub fn get_timestamp() -> String {
    chrono::Utc::now().format("%Y-%m-%dT%H:%M:%S").to_string()
}

/// The canonical string that is signed: method, host, path and the
/// canonical query, joined by newlines.
pub open spec fn canonical_payload_of(
    method: Seq<char>,
    host: Seq<char>,
    path: Seq<char>,
    pairs: Seq<(Seq<char>, Seq<char>)>,
) -> Seq<char> {
    method + seq!['\n'] + host + seq!['\n'] + path + seq!['\n'] + canonical_query_of(pairs)
}

/// The signature for a request: base64 of the HMAC-SHA256 tag of the
/// canonical string under the secret.
pub open spec fn signature_of(
    secret: Seq<char>,
    method: Seq<char>,
    host: Seq<char>,
    path: Seq<char>,
    pairs: Seq<(Seq<char>, Seq<char>)>,
) -> Seq<char> {
    mac_of(secret, canonical_payload_of(method, host, path, pairs))
}

/// Builds the canonical string `METHOD\nHOST\nPATH\nSORTED_QUERY`.
pub fn canonical_payload(
    method: &str,
    host: &str,
    path: &str,
    params: &Vec<(String, String)>,
) -> (r: String)
    ensures
        r@ == canonical_payload_of(method@, host@, path@, pairs_view(params@)),
{
    let mut out = String::new();
    push_str(&mut out, method);
    string_push(&mut out, '\n');
    push_str(&mut out, host);
    string_push(&mut out, '\n');
    push_str(&mut out, path);
    string_push(&mut out, '\n');
    let q = canonical_query(params);
    push_str(&mut out, q.as_str());
    proof {
        assert(out@ =~= canonical_payload_of(method@, host@, path@, pairs_view(params@)));
    }
    out
}

/// Signs a request: the canonical string of method, host, path and the
/// sorted, percent-encoded parameters, HMAC-SHA256 signed with the secret
/// and base64 encoded. A pure function of its arguments.
///
/// The size bounds are the hash's input limit;
/// [`lemma_canonical_payload_fits`] discharges them for any reasonably
/// bounded input.
pub fn sign(
    secret: &str,
    method: &str,
    host: &str,
    path: &str,
    params: &Vec<(String, String)>,
) -> (r: String)
    requires
        encode_utf8(secret@).len() < 0x2000000000000000,
        encode_utf8(
            canonical_payload_of(method@, host@, path@, pairs_view(params@)),
        ).len() < 0x2000000000000000,
    ensures
        r@ == signature_of(secret@, method@, host@, path@, pairs_view(params@)),
{
    let payload = canonical_payload(method, host, path, params);
    sign_hmac_sha256_base64(secret, payload.as_str())
}

/// The UTF-8 encoding takes at most four bytes for each character.
pub proof fn lemma_encode_utf8_len(cs: Seq<char>)
    ensures
        encode_utf8(cs).len() <= 4 * cs.len(),
    decreases cs.len(),
{
    if cs.len() > 0 {
        lemma_encode_utf8_len(cs.drop_first());
    }
}

/// A bound on the length of a query string over bounded parameters.
pub proof fn lemma_query_of_len(pairs: Seq<(Seq<char>, Seq<char>)>)
    requires
        forall|i: int|
            0 <= i < pairs.len() ==> (#[trigger] pairs[i]).0.len() <= 0x100000 && pairs[i].1.len()
                <= 0x100000,
    ensures
        query_of(pairs).len() <= pairs.len() * 13631490,
    decreases pairs.len(),
{
    if pairs.len() > 0 {
        lemma_query_of_len(pairs.drop_last());
        let last = pairs.last();
        lemma_encode_utf8_len(last.1);
        lemma_pe_spec_len(encode_utf8(last.1));
        assert(enc_pair(last).len() <= 13631489);
    }
}

/// Bounded inputs always give a canonical string that the HMAC accepts.
pub proof fn lemma_canonical_payload_fits(
    method: Seq<char>,
    host: Seq<char>,
    path: Seq<char>,
    pairs: Seq<(Seq<char>, Seq<char>)>,
)
    requires
        method.len() <= 0x100000,
        host.len() <= 0x100000,
        path.len() <= 0x100000,
        pairs.len() <= 0x100000,
        forall|i: int|
            0 <= i < pairs.len() ==> (#[trigger] pairs[i]).0.len() <= 0x100000 && pairs[i].1.len()
                <= 0x100000,
    ensures
        encode_utf8(canonical_payload_of(method, host, path, pairs)).len() < 0x2000000000000000,
{
    broadcast use vstd::seq_lib::group_to_multiset_ensures;

    lemma_pair_le_total_ordering();
    pairs.lemma_sort_by_ensures(pair_le_fn());
    let sorted = pairs.sort_by(pair_le_fn());
    assert forall|i: int|
        0 <= i < sorted.len() implies (#[trigger] sorted[i]).0.len() <= 0x100000
        && sorted[i].1.len() <= 0x100000 by {
        assert(sorted.to_multiset().count(sorted[i]) > 0);
        assert(pairs.to_multiset().count(sorted[i]) > 0);
        assert(pairs.contains(sorted[i]));
        let j = choose|j: int| 0 <= j < pairs.len() && pairs[j] == sorted[i];
        assert(pairs[j].0.len() <= 0x100000 && pairs[j].1.len() <= 0x100000);
    }
    lemma_query_of_len(sorted);
    assert(sorted.len() == pairs.len()) by {
        assert(sorted.to_multiset().len() == pairs.to_multiset().len());
    }
    assert(canonical_query_of(pairs).len() <= 0x100000 * 13631490);
    lemma_encode_utf8_len(canonical_payload_of(method, host, path, pairs));
}

/// Law: the signature is deterministic — one secret, method, host, path
/// and parameter set always yield one signature, whatever the order in
/// which the parameters are given.
pub proof fn lemma_sign_deterministic(
    secret: Seq<char>,
    method: Seq<char>,
    host: Seq<char>,
    path: Seq<char>,
    a: Seq<(Seq<char>, Seq<char>)>,
    b: Seq<(Seq<char>, Seq<char>)>,
)
    requires
        a.to_multiset() == b.to_multiset(),
    ensures
        signature_of(secret, method, host, path, a) == signature_of(secret, method, host, path, b),
{
    lemma_canonical_query_order_insensitive(a, b);
}

/// Law: the canonical query string does not depend on the order in which
/// the parameters are given, only on which parameters there are.
pub proof fn lemma_canonical_query_order_insensitive(
    a: Seq<(Seq<char>, Seq<char>)>,
    b: Seq<(Seq<char>, Seq<char>)>,
)
    requires
        a.to_multiset() == b.to_multiset(),
    ensures
        canonical_query_of(a) == canonical_query_of(b),
{
    lemma_pair_le_total_ordering();
    a.lemma_sort_by_ensures(pair_le_fn());
    b.lemma_sort_by_ensures(pair_le_fn());
    vstd::seq_lib::lemma_sorted_unique(a.sort_by(pair_le_fn()), b.sort_by(pair_le_fn()), pair_le_fn());
}

} // verus!
