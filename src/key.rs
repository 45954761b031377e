//! Content-addressed cache keys: a benchmark command is identified by the
//! lowercase hex SHA-256 digest of its bytes, and a result for a revision is
//! stored under `<benchmark id>/<revision>.json`.

use vstd::prelude::*;
use vstd::string::StringSliceAdditionalSpecFns;
use vstd::utf8::encode_utf8;

verus! {

/// The SHA-256 digest of a byte sequence, as computed by the `sha2` crate.
pub uninterp spec fn sha256_of(data: Seq<u8>) -> Seq<u8>;

/// Relies on `sha2::Sha256::digest`: the digest of `data`, 32 bytes long.
#[verifier::external_body]
fn sha256(data: &[u8]) -> (r: Vec<u8>)
    ensures
        r@ == sha256_of(data@),
        r@.len() == 32,
{
    <sha2::Sha256 as sha2::Digest>::digest(data).to_vec()
}

/// The lowercase hexadecimal digit for a value below 16.
pub open spec fn hex_digit(d: int) -> char {
    seq!['0', '1', '2', '3', '4', '5', '6', '7', '8', '9', 'a', 'b', 'c', 'd', 'e', 'f'][d]
}

/// Two lowercase hex digits per byte, high nibble first.
pub open spec fn hex_of(bytes: Seq<u8>) -> Seq<char> {
    Seq::new(
        2 * bytes.len(),
        |i: int|
            if i % 2 == 0 {
                hex_digit(bytes[i / 2] as int / 16)
            } else {
                hex_digit(bytes[i / 2] as int % 16)
            },
    )
}

/// The identifier of a benchmark command: the hex digest of its UTF-8 bytes.
pub open spec fn bench_id_of(command: Seq<char>) -> Seq<char> {
    hex_of(sha256_of(encode_utf8(command)))
}

/// Renders `bytes` as lowercase hexadecimal.
pub fn to_hex(bytes: &[u8]) -> (r: String)
    ensures
        r@ == hex_of(bytes@),
{
    let digits = "0123456789abcdef";
    proof {
        reveal_strlit("0123456789abcdef");
    }
    assert(digits@ =~= seq![
        '0', '1', '2', '3', '4', '5', '6', '7', '8', '9', 'a', 'b', 'c', 'd', 'e', 'f'
    ]);
    let mut out = String::new();
    let mut i: usize = 0;
    while i < bytes.len()
        invariant
            i <= bytes@.len(),
            digits@ == seq![
                '0', '1', '2', '3', '4', '5', '6', '7', '8', '9', 'a', 'b', 'c', 'd', 'e', 'f'
            ],
            out@ =~= hex_of(bytes@.subrange(0, i as int)),
        decreases bytes@.len() - i,
    {
        let b = bytes[i];
        let hi = (b / 16) as usize;
        let lo = (b % 16) as usize;
        let ghost before = out@;
        out.append(digits.substring_char(hi, hi + 1));
        out.append(digits.substring_char(lo, lo + 1));
        i = i + 1;
        proof {
            let pre = bytes@.subrange(0, i - 1);
            let cur = bytes@.subrange(0, i as int);
            assert(before =~= hex_of(pre));
            assert forall|k: int| 0 <= k < 2 * cur.len() implies #[trigger] out@[k] == hex_of(cur)[k] by {
                if k < 2 * pre.len() {
                    assert(k / 2 < pre.len()) by (nonlinear_arith)
                        requires 0 <= k < 2 * pre.len();
                    assert(cur[k / 2] == pre[k / 2]);
                } else if k == 2 * pre.len() {
                    assert(k / 2 == pre.len() && k % 2 == 0) by (nonlinear_arith)
                        requires k == 2 * pre.len();
                } else {
                    assert(k / 2 == pre.len() && k % 2 == 1) by (nonlinear_arith)
                        requires k == 2 * pre.len() + 1;
                }
            }
            assert(out@ =~= hex_of(cur));
        }
    }
    assert(bytes@.subrange(0, bytes@.len() as int) =~= bytes@);
    out
}

/// The cache identifier of a benchmark command.
pub fn bench_id(command: &str) -> (r: String)
    ensures
        r@ == bench_id_of(command@),
{
    let digest = sha256(command.as_bytes());
    to_hex(digest.as_slice())
}

/// The file name under which the result for `revision` is stored.
pub open spec fn result_file_name_of(revision: Seq<char>) -> Seq<char> {
    revision + seq!['.', 'j', 's', 'o', 'n']
}

/// The file name of the cached result for `revision`: the id followed by `.json`.
pub fn result_file_name(revision: &str) -> (r: String)
    ensures
        r@ == result_file_name_of(revision@),
{
    proof {
        reveal_strlit(".json");
    }
    String::from_str(revision).concat(".json")
}

/// The revision whose result a file of this name holds, if the name follows
/// the result file convention: a non-empty stem followed by `.json`.
pub open spec fn revision_of_file_name_spec(name: Seq<char>) -> Option<Seq<char>> {
    if name.len() > 5 && name.subrange(name.len() - 5, name.len() as int) == seq!['.', 'j', 's', 'o', 'n'] {
        Some(name.subrange(0, name.len() - 5))
    } else {
        None
    }
}

/// Recovers the revision id from a result file name, or `None` when the name
/// is not that of a result file.
pub fn revision_of_file_name(name: &str) -> (r: Option<String>)
    ensures
        r matches Some(s) ==> revision_of_file_name_spec(name@) == Some(s@),
        r is None ==> revision_of_file_name_spec(name@) is None,
{
    let suffix = ".json";
    proof {
        reveal_strlit(".json");
    }
    let n = name.unicode_len();
    if n <= 5 {
        return None;
    }
    let tail = name.substring_char(n - 5, n);
    let mut same = true;
    let mut k: usize = 0;
    while k < 5
        invariant
            k <= 5,
            tail@.len() == 5,
            suffix@ == seq!['.', 'j', 's', 'o', 'n'],
            same == (tail@.subrange(0, k as int) =~= suffix@.subrange(0, k as int)),
        decreases 5 - k,
    {
        let a = tail.get_char(k);
        let b = suffix.get_char(k);
        proof {
            assert(tail@.subrange(0, k + 1) =~= tail@.subrange(0, k as int).push(a));
            assert(suffix@.subrange(0, k + 1) =~= suffix@.subrange(0, k as int).push(b));
            if tail@.subrange(0, k + 1) =~= suffix@.subrange(0, k + 1) {
                assert(tail@.subrange(0, k + 1)[k as int] == a);
                assert(suffix@.subrange(0, k + 1)[k as int] == b);
                assert(tail@.subrange(0, k as int) =~= tail@.subrange(0, k + 1).drop_last());
                assert(suffix@.subrange(0, k as int) =~= suffix@.subrange(0, k + 1).drop_last());
            }
        }
        same = same && a == b;
        k = k + 1;
    }
    assert(tail@.subrange(0, 5) =~= tail@);
    assert(suffix@.subrange(0, 5) =~= suffix@);
    if same {
        Some(name.substring_char(0, n - 5).to_owned())
    } else {
        None
    }
}

/// Equal commands always get the same identifier, and two commands share an
/// identifier only when their digests collide on distinct byte strings.
pub proof fn lemma_bench_id_deterministic(a: Seq<char>, b: Seq<char>)
    ensures
        a == b ==> bench_id_of(a) == bench_id_of(b),
        bench_id_of(a) == bench_id_of(b) <==> sha256_of(encode_utf8(a)) == sha256_of(encode_utf8(b)),
        a != b ==> encode_utf8(a) != encode_utf8(b),
{
    lemma_hex_injective(sha256_of(encode_utf8(a)), sha256_of(encode_utf8(b)));
    vstd::utf8::encode_utf8_decode_utf8(a);
    vstd::utf8::encode_utf8_decode_utf8(b);
}

/// Hex rendering loses nothing: equal renderings come from equal bytes.
pub proof fn lemma_hex_injective(x: Seq<u8>, y: Seq<u8>)
    ensures
        hex_of(x) == hex_of(y) <==> x == y,
{
    if hex_of(x) == hex_of(y) {
        assert(hex_of(x).len() == hex_of(y).len());
        assert(x.len() == y.len());
        assert forall|j: int| 0 <= j < x.len() implies x[j] == y[j] by {
            assert(hex_of(x)[2 * j] == hex_of(y)[2 * j]);
            assert(hex_of(x)[2 * j + 1] == hex_of(y)[2 * j + 1]);
            assert((2 * j) / 2 == j && (2 * j) % 2 == 0 && (2 * j + 1) / 2 == j && (2 * j + 1) % 2 == 1);
            let hx = x[j] as int / 16;
            let lx = x[j] as int % 16;
            let hy = y[j] as int / 16;
            let ly = y[j] as int % 16;
            lemma_hex_digit_injective(hx, hy);
            lemma_hex_digit_injective(lx, ly);
        }
        assert(x =~= y);
    }
}

proof fn lemma_hex_digit_injective(d: int, e: int)
    requires
        0 <= d < 16,
        0 <= e < 16,
        hex_digit(d) == hex_digit(e),
    ensures
        d == e,
{
}

} // verus!
