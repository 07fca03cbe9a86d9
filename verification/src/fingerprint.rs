//! The checkpoint fingerprint that binds an oracle suite to one download:
//! a SHA-256 over the resolved revision, every file identity, the model
//! configuration and the runtime manifest, each framed by its length.
use vstd::prelude::*;
use vstd::utf8::{encode_utf8, is_ascii_chars, is_ascii_chars_encode_utf8};
use sha2::Digest;
use crate::manifest::{safe_relative_path, spec_safe_relative_path};
use crate::oracle::OracleError;
use crate::text::{byte_len, decimal, is_blank, push_decimal, push_str, str_is_blank, string_of};

verus! {

/// What SHA-256 makes of a message (`sha2::Sha256::digest`).
pub uninterp spec fn sha256_of(message: Seq<u8>) -> Seq<u8>;

/// `sha2::Sha256::digest`: the SHA-256 digest of `message`. The contract
/// names the result and states its size of 32 bytes; nothing else about it
/// is stated.
#[verifier::external_body]
fn sha256(message: &[u8]) -> (d: Vec<u8>)
    ensures
        d@ == sha256_of(message@),
        d@.len() == 32,
{
    sha2::Sha256::digest(message).to_vec()
}

/// The little-endian bytes of `n`.
pub open spec fn le64(n: u64) -> Seq<u8> {
    Seq::new(8, |i: int| ((n as int / pow256(i)) % 256) as u8)
}

pub open spec fn pow256(i: int) -> int
    decreases i,
{
    if i <= 0 { 1 } else { 256 * pow256(i - 1) }
}

/// `bytes` preceded by its length as a little-endian 64-bit number.
pub open spec fn framed(bytes: Seq<u8>) -> Seq<u8> {
    le64(bytes.len() as u64) + bytes
}

fn push_le64(out: &mut Vec<u8>, n: u64)
    ensures
        final(out)@ == old(out)@ + le64(n),
{
    let ghost start = out@;
    let mut value = n;
    let mut i: usize = 0;
    while i < 8
        invariant
            i <= 8,
            out@.len() == start.len() + i,
            out@.subrange(0, start.len() as int) == start,
            forall|k: int| 0 <= k < i ==> out@[start.len() + k] == le64(n)[k],
            value as int == n as int / pow256(i as int),
        decreases 8 - i,
    {
        let byte = (value % 256) as u8;
        out.push(byte);
        assert(pow256(i + 1) == 256 * pow256(i as int));
        assert(pow256(i as int) > 0) by {
            lemma_pow256_positive(i as int);
        }
        assert(value as int / 256 == n as int / pow256(i + 1)) by (nonlinear_arith)
            requires
                value as int == n as int / pow256(i as int),
                pow256(i + 1) == 256 * pow256(i as int),
                pow256(i as int) > 0,
                n >= 0,
        ;
        value = value / 256;
        i += 1;
    }
    assert(out@ =~= start + le64(n));
}

proof fn lemma_pow256_positive(i: int)
    ensures
        pow256(i) > 0,
    decreases i,
{
    if i > 0 {
        lemma_pow256_positive(i - 1);
    }
}

fn push_bytes(out: &mut Vec<u8>, bytes: &[u8])
    ensures
        final(out)@ == old(out)@ + bytes@,
{
    let ghost start = out@;
    let mut i: usize = 0;
    while i < bytes.len()
        invariant
            i <= bytes@.len(),
            out@ == start + bytes@.take(i as int),
        decreases bytes@.len() - i,
    {
        out.push(bytes[i]);
        assert(bytes@.take(i + 1) =~= bytes@.take(i as int).push(bytes@[i as int]));
        i += 1;
    }
    assert(bytes@.take(i as int) =~= bytes@);
}

fn push_framed(out: &mut Vec<u8>, bytes: &[u8])
    ensures
        final(out)@ == old(out)@ + framed(bytes@),
{
    push_le64(out, bytes.len() as u64);
    push_bytes(out, bytes);
    assert(out@ =~= old(out)@ + framed(bytes@));
}

/// One downloaded file: its relative path, size and immutable blob identity.
pub struct FileIdentity {
    pub path: String,
    pub size: u64,
    pub blob_id: String,
}

pub open spec fn identity_frames(ids: Seq<FileIdentity>) -> Seq<u8>
    decreases ids.len(),
{
    if ids.len() == 0 {
        Seq::empty()
    } else {
        let last = ids.last();
        identity_frames(ids.drop_last()) + framed(encode_utf8(last.path@)) + framed(le64(last.size))
            + framed(encode_utf8(last.blob_id@))
    }
}

/// Lexicographic order of character sequences, characters compared by code
/// point. For strings this is the order of `String`'s `Ord`, which compares
/// UTF-8 bytes, and UTF-8 keeps code-point order.
pub open spec fn chars_le(a: Seq<char>, b: Seq<char>) -> bool
    decreases a.len(),
{
    if a.len() == 0 {
        true
    } else if b.len() == 0 {
        false
    } else if a[0] != b[0] {
        a[0] < b[0]
    } else {
        chars_le(a.drop_first(), b.drop_first())
    }
}

/// The order of identities as `(path, size, blob_id)` tuples.
pub open spec fn identity_le(x: FileIdentity, y: FileIdentity) -> bool {
    if x.path@ != y.path@ {
        chars_le(x.path@, y.path@)
    } else if x.size != y.size {
        x.size < y.size
    } else {
        chars_le(x.blob_id@, y.blob_id@)
    }
}

pub open spec fn identities_sorted(s: Seq<FileIdentity>) -> bool {
    forall|i: int, j: int| 0 <= i < j < s.len() ==> identity_le(#[trigger] s[i], #[trigger] s[j])
}

proof fn lemma_chars_le_total(a: Seq<char>, b: Seq<char>)
    ensures
        chars_le(a, b) || chars_le(b, a),
    decreases a.len(),
{
    if a.len() > 0 && b.len() > 0 && a[0] == b[0] {
        lemma_chars_le_total(a.drop_first(), b.drop_first());
    }
}

proof fn lemma_chars_le_antisymmetric(a: Seq<char>, b: Seq<char>)
    requires
        chars_le(a, b),
        chars_le(b, a),
    ensures
        a == b,
    decreases a.len(),
{
    if a.len() > 0 {
        lemma_chars_le_antisymmetric(a.drop_first(), b.drop_first());
        assert(a =~= seq![a[0]] + a.drop_first());
        assert(b =~= seq![b[0]] + b.drop_first());
    } else {
        assert(b.len() == 0);
        assert(a =~= b);
    }
}

proof fn lemma_chars_le_transitive(a: Seq<char>, b: Seq<char>, c: Seq<char>)
    requires
        chars_le(a, b),
        chars_le(b, c),
    ensures
        chars_le(a, c),
    decreases a.len(),
{
    if a.len() > 0 && b.len() > 0 && c.len() > 0 && a[0] == b[0] && b[0] == c[0] {
        lemma_chars_le_transitive(a.drop_first(), b.drop_first(), c.drop_first());
    }
}

proof fn lemma_chars_le_skip(a: Seq<char>, b: Seq<char>, i: int)
    requires
        0 <= i <= a.len(),
        i <= b.len(),
        forall|k: int| 0 <= k < i ==> a[k] == b[k],
    ensures
        chars_le(a, b) == chars_le(a.skip(i), b.skip(i)),
    decreases i,
{
    if i == 0 {
        assert(a.skip(0) =~= a);
        assert(b.skip(0) =~= b);
    } else {
        assert(a[0] == b[0]);
        lemma_chars_le_skip(a.drop_first(), b.drop_first(), i - 1);
        assert(a.drop_first().skip(i - 1) =~= a.skip(i));
        assert(b.drop_first().skip(i - 1) =~= b.skip(i));
    }
}

proof fn lemma_identity_le_total(x: FileIdentity, y: FileIdentity)
    ensures
        identity_le(x, y) || identity_le(y, x),
{
    lemma_chars_le_total(x.path@, y.path@);
    lemma_chars_le_total(x.blob_id@, y.blob_id@);
}

proof fn lemma_identity_le_transitive(x: FileIdentity, y: FileIdentity, z: FileIdentity)
    requires
        identity_le(x, y),
        identity_le(y, z),
    ensures
        identity_le(x, z),
{
    if x.path@ != y.path@ && y.path@ != z.path@ {
        lemma_chars_le_transitive(x.path@, y.path@, z.path@);
        if x.path@ == z.path@ {
            lemma_chars_le_antisymmetric(x.path@, y.path@);
        }
    } else if x.path@ == y.path@ && y.path@ == z.path@ {
        if x.size == y.size && y.size == z.size {
            lemma_chars_le_transitive(x.blob_id@, y.blob_id@, z.blob_id@);
        }
    }
}

fn chars_le_exec(a: &Vec<char>, b: &Vec<char>) -> (r: bool)
    ensures
        r == chars_le(a@, b@),
{
    let mut i: usize = 0;
    while i < a.len() && i < b.len()
        invariant
            i <= a@.len(),
            i <= b@.len(),
            forall|k: int| 0 <= k < i ==> a@[k] == b@[k],
        decreases a@.len() - i,
    {
        if a[i] != b[i] {
            proof {
                lemma_chars_le_skip(a@, b@, i as int);
                assert(a@.skip(i as int)[0] == a@[i as int]);
                assert(b@.skip(i as int)[0] == b@[i as int]);
            }
            return a[i] < b[i];
        }
        i += 1;
    }
    proof {
        lemma_chars_le_skip(a@, b@, i as int);
    }
    a.len() <= b.len()
}

fn identity_le_exec(x: &FileIdentity, y: &FileIdentity) -> (r: bool)
    ensures
        r == identity_le(*x, *y),
{
    let xp = crate::text::chars_of(x.path.as_str());
    let yp = crate::text::chars_of(y.path.as_str());
    if !crate::text::vec_eq(&xp, &yp) {
        chars_le_exec(&xp, &yp)
    } else if x.size != y.size {
        x.size < y.size
    } else {
        let xb = crate::text::chars_of(x.blob_id.as_str());
        let yb = crate::text::chars_of(y.blob_id.as_str());
        chars_le_exec(&xb, &yb)
    }
}

/// The identities in `(path, size, blob_id)` order: the same identities,
/// each as often as before, sorted.
pub fn sort_identities(ids: Vec<FileIdentity>) -> (out: Vec<FileIdentity>)
    ensures
        out@.to_multiset() == ids@.to_multiset(),
        identities_sorted(out@),
{
    broadcast use vstd::seq_lib::group_to_multiset_ensures;
    broadcast use vstd::multiset::group_multiset_axioms;

    let mut rest = ids;
    let mut out: Vec<FileIdentity> = Vec::new();
    assert(out@.to_multiset() =~= vstd::multiset::Multiset::empty());
    assert(out@.to_multiset().add(rest@.to_multiset()) =~= ids@.to_multiset());
    while rest.len() > 0
        invariant
            out@.to_multiset().add(rest@.to_multiset()) == ids@.to_multiset(),
            identities_sorted(out@),
        decreases rest@.len(),
    {
        let ghost before = rest@;
        let ghost sorted = out@;
        let x = rest.pop().unwrap();
        assert(before =~= rest@.push(x));
        let mut j: usize = 0;
        while j < out.len() && identity_le_exec(&out[j], &x)
            invariant
                j <= out@.len(),
                out@ == sorted,
                forall|k: int| 0 <= k < j ==> identity_le(#[trigger] out@[k], x),
            decreases out@.len() - j,
        {
            j += 1;
        }
        proof {
            assert forall|k: int| j <= k < sorted.len() implies identity_le(x, #[trigger] sorted[k]) by {
                lemma_identity_le_total(sorted[j as int], x);
                if k > j {
                    lemma_identity_le_transitive(x, sorted[j as int], sorted[k]);
                }
            }
        }
        out.insert(j, x);
        proof {
            let n = out@;
            assert(n == sorted.insert(j as int, x));
            assert forall|a: int, b: int| 0 <= a < b < n.len() implies identity_le(#[trigger] n[a], #[trigger] n[b]) by {
                if b < j {
                    assert(n[a] == sorted[a] && n[b] == sorted[b]);
                } else if b == j {
                    assert(n[a] == sorted[a]);
                } else if a < j {
                    assert(n[a] == sorted[a] && n[b] == sorted[b - 1]);
                } else if a == j {
                    assert(n[b] == sorted[b - 1]);
                } else {
                    assert(n[a] == sorted[a - 1] && n[b] == sorted[b - 1]);
                }
            }
            vstd::seq_lib::to_multiset_insert(sorted, j as int, x);
            vstd::seq_lib::to_multiset_build(rest@, x);
            assert(out@.to_multiset().add(rest@.to_multiset()) =~= sorted.to_multiset().add(before.to_multiset()));
        }
    }
    assert(rest@.to_multiset() =~= vstd::multiset::Multiset::empty());
    assert(out@.to_multiset().add(rest@.to_multiset()) =~= out@.to_multiset());
    out
}

/// What an identity contributes to the fingerprint: its path, size and
/// blob identity.
pub open spec fn id_view(x: FileIdentity) -> (Seq<char>, u64, Seq<char>) {
    (x.path@, x.size, x.blob_id@)
}

/// The `(path, size, blob_id)` order on those views.
pub open spec fn view_le(a: (Seq<char>, u64, Seq<char>), b: (Seq<char>, u64, Seq<char>)) -> bool {
    if a.0 != b.0 {
        chars_le(a.0, b.0)
    } else if a.1 != b.1 {
        a.1 < b.1
    } else {
        chars_le(a.2, b.2)
    }
}

pub open spec fn views_sorted(s: Seq<(Seq<char>, u64, Seq<char>)>) -> bool {
    forall|i: int, j: int| 0 <= i < j < s.len() ==> view_le(#[trigger] s[i], #[trigger] s[j])
}

proof fn lemma_chars_le_reflexive(a: Seq<char>)
    ensures
        chars_le(a, a),
    decreases a.len(),
{
    if a.len() > 0 {
        lemma_chars_le_reflexive(a.drop_first());
    }
}

/// Sorted sequences of views with the same elements are the same sequence.
proof fn lemma_sorted_views_unique(a: Seq<(Seq<char>, u64, Seq<char>)>, b: Seq<(Seq<char>, u64, Seq<char>)>)
    requires
        views_sorted(a),
        views_sorted(b),
        a.to_multiset() == b.to_multiset(),
    ensures
        a == b,
    decreases a.len(),
{
    broadcast use vstd::seq_lib::group_to_multiset_ensures;
    broadcast use vstd::multiset::group_multiset_axioms;

    if a.len() == 0 {
        assert(b.to_multiset().len() == 0);
        assert(a =~= b);
    } else {
        assert(a.to_multiset().len() == a.len());
        assert(b.to_multiset().len() == b.len());
        assert(b.len() > 0);
        let x = a[0];
        let y = b[0];
        assert(a.to_multiset().count(x) > 0);
        assert(b.contains(x));
        let j = choose|j: int| 0 <= j < b.len() && b[j] == x;
        assert(b.to_multiset().count(y) > 0);
        assert(a.contains(y));
        let k = choose|k: int| 0 <= k < a.len() && a[k] == y;
        lemma_chars_le_reflexive(x.0);
        lemma_chars_le_reflexive(x.2);
        lemma_chars_le_reflexive(y.0);
        lemma_chars_le_reflexive(y.2);
        if j > 0 {
            assert(view_le(b[0], b[j]));
        }
        if k > 0 {
            assert(view_le(a[0], a[k]));
        }
        assert(view_le(y, x));
        assert(view_le(x, y));
        if x.0 != y.0 {
            lemma_chars_le_antisymmetric(x.0, y.0);
        }
        if x.0 == y.0 && x.1 == y.1 {
            lemma_chars_le_antisymmetric(x.2, y.2);
        }
        assert(x == y);
        vstd::seq_lib::to_multiset_remove(a, 0);
        vstd::seq_lib::to_multiset_remove(b, 0);
        assert(a.remove(0) =~= a.drop_first());
        assert(b.remove(0) =~= b.drop_first());
        assert forall|i: int, l: int| 0 <= i < l < a.drop_first().len()
            implies view_le(#[trigger] a.drop_first()[i], #[trigger] a.drop_first()[l]) by {
            assert(view_le(a[i + 1], a[l + 1]));
        }
        assert forall|i: int, l: int| 0 <= i < l < b.drop_first().len()
            implies view_le(#[trigger] b.drop_first()[i], #[trigger] b.drop_first()[l]) by {
            assert(view_le(b[i + 1], b[l + 1]));
        }
        lemma_sorted_views_unique(a.drop_first(), b.drop_first());
        assert(a =~= seq![x] + a.drop_first());
        assert(b =~= seq![y] + b.drop_first());
    }
}

/// Sequences with the same elements keep the same elements under `f`.
proof fn lemma_multiset_map<A, B>(s1: Seq<A>, s2: Seq<A>, f: spec_fn(A) -> B)
    requires
        s1.to_multiset() == s2.to_multiset(),
    ensures
        s1.map_values(f).to_multiset() == s2.map_values(f).to_multiset(),
    decreases s1.len(),
{
    broadcast use vstd::seq_lib::group_to_multiset_ensures;
    broadcast use vstd::multiset::group_multiset_axioms;

    if s1.len() == 0 {
        assert(s2.to_multiset().len() == 0);
        assert(s1.map_values(f) =~= s2.map_values(f));
    } else {
        let x = s1.last();
        assert(s1 =~= s1.drop_last().push(x));
        vstd::seq_lib::to_multiset_build(s1.drop_last(), x);
        assert(s2.to_multiset().count(x) > 0);
        assert(s2.contains(x));
        let j = choose|j: int| 0 <= j < s2.len() && s2[j] == x;
        vstd::seq_lib::to_multiset_remove(s2, j);
        assert(s1.drop_last().to_multiset() =~= s2.remove(j).to_multiset());
        lemma_multiset_map(s1.drop_last(), s2.remove(j), f);
        assert(s1.map_values(f) =~= s1.drop_last().map_values(f).push(f(x)));
        vstd::seq_lib::to_multiset_build(s1.drop_last().map_values(f), f(x));
        assert(s2.map_values(f) =~= s2.remove(j).map_values(f).insert(j, f(x)));
        vstd::seq_lib::to_multiset_insert(s2.remove(j).map_values(f), j, f(x));
    }
}

proof fn lemma_frames_by_views(a: Seq<FileIdentity>, b: Seq<FileIdentity>)
    requires
        a.map_values(|x: FileIdentity| id_view(x)) == b.map_values(|x: FileIdentity| id_view(x)),
    ensures
        identity_frames(a) == identity_frames(b),
    decreases a.len(),
{
    assert(a.len() == b.map_values(|x: FileIdentity| id_view(x)).len());
    if a.len() > 0 {
        assert(a.drop_last().map_values(|x: FileIdentity| id_view(x)) =~= b.drop_last().map_values(|x: FileIdentity| id_view(x))) by {
            assert forall|i: int| 0 <= i < a.len() - 1 implies id_view(a[i]) == id_view(b[i]) by {
                assert(a.map_values(|x: FileIdentity| id_view(x))[i] == b.map_values(|x: FileIdentity| id_view(x))[i]);
            }
        }
        lemma_frames_by_views(a.drop_last(), b.drop_last());
        assert(a.map_values(|x: FileIdentity| id_view(x))[a.len() - 1] == b.map_values(|x: FileIdentity| id_view(x))[a.len() - 1]);
    }
}

/// The fingerprint does not depend on the order in which the download
/// record lists its files: sorted identity lists that hold the same
/// identities give the same fingerprint message.
pub proof fn law_fingerprint_ignores_file_order(
    revision: Seq<char>,
    a: Seq<FileIdentity>,
    b: Seq<FileIdentity>,
    config: Seq<u8>,
    manifest: Seq<u8>,
)
    requires
        identities_sorted(a),
        identities_sorted(b),
        a.to_multiset() == b.to_multiset(),
    ensures
        fingerprint_message_spec(revision, a, config, manifest) == fingerprint_message_spec(revision, b, config, manifest),
{
    let f = |x: FileIdentity| id_view(x);
    lemma_multiset_map(a, b, f);
    let va = a.map_values(f);
    let vb = b.map_values(f);
    assert forall|i: int, j: int| 0 <= i < j < va.len() implies view_le(#[trigger] va[i], #[trigger] va[j]) by {
        assert(identity_le(a[i], a[j]));
    }
    assert forall|i: int, j: int| 0 <= i < j < vb.len() implies view_le(#[trigger] vb[i], #[trigger] vb[j]) by {
        assert(identity_le(b[i], b[j]));
    }
    lemma_sorted_views_unique(va, vb);
    lemma_frames_by_views(a, b);
}

/// One entry of the download record: the path, size and blob identity it
/// names where they are present, and the size found on disk for that path
/// (`Err` holds why it could not be read).
pub struct DownloadFile {
    pub path: Option<String>,
    pub size: Option<u64>,
    pub blob_id: Option<String>,
    pub on_disk: Result<u64, String>,
}

/// What `format!("{:?}")` writes for a string: the string quoted, with its
/// special characters escaped.
pub uninterp spec fn debug_quoted(s: Seq<char>) -> Seq<char>;

/// `format!("{:?}", s)` on a `str` (std's `Debug`). The result is named, not
/// stated.
#[verifier::external_body]
pub(crate) fn debug_str(s: &str) -> (d: String)
    ensures
        d@ == debug_quoted(s@),
{
    format!("{:?}", s)
}

/// The resolved revision names an immutable commit: it is present and at
/// least seven bytes long.
pub open spec fn revision_ok(revision: Option<String>) -> bool {
    revision matches Some(r) && encode_utf8(r@).len() as usize >= 7
}

/// Why one entry of the download record cannot be trusted, if it cannot.
pub open spec fn entry_problem(f: DownloadFile) -> Option<Seq<char>> {
    match f.path {
        None => Some("download file path is missing"@),
        Some(p) => if !spec_safe_relative_path(p@) {
            Some("download file path "@ + debug_quoted(p@) + " is unsafe"@)
        } else if f.size is None {
            Some("download size is missing for "@ + p@)
        } else if f.blob_id is None || is_blank(f.blob_id->0@) {
            Some("immutable blob identity is missing for "@ + p@)
        } else {
            match f.on_disk {
                Err(e) => Some("cannot stat "@ + p@ + ": "@ + e@),
                Ok(actual) => if actual != f.size->0 {
                    Some("file "@ + p@ + " has "@ + decimal(actual as nat) + " bytes; expected "@
                        + decimal(f.size->0 as nat))
                } else {
                    None
                },
            }
        },
    }
}

/// The identity an entry records.
pub open spec fn identity_of(f: DownloadFile) -> FileIdentity {
    FileIdentity { path: f.path->0, size: f.size->0, blob_id: f.blob_id->0 }
}

fn entry_check(f: &DownloadFile) -> (r: Option<String>)
    ensures
        r is None <==> entry_problem(*f) is None,
        r matches Some(m) ==> entry_problem(*f) == Some(m@),
{
    let p = match &f.path {
        None => return Some(string_of("download file path is missing")),
        Some(p) => p,
    };
    if !safe_relative_path(p.as_str()) {
        let mut m = string_of("download file path ");
        push_str(&mut m, debug_str(p.as_str()).as_str());
        push_str(&mut m, " is unsafe");
        return Some(m);
    }
    let size = match f.size {
        None => {
            let mut m = string_of("download size is missing for ");
            push_str(&mut m, p.as_str());
            return Some(m);
        },
        Some(n) => n,
    };
    let blank = match &f.blob_id {
        None => true,
        Some(b) => str_is_blank(b.as_str()),
    };
    if blank {
        let mut m = string_of("immutable blob identity is missing for ");
        push_str(&mut m, p.as_str());
        return Some(m);
    }
    match &f.on_disk {
        Err(e) => {
            let mut m = string_of("cannot stat ");
            push_str(&mut m, p.as_str());
            push_str(&mut m, ": ");
            push_str(&mut m, e.as_str());
            Some(m)
        },
        Ok(actual) => {
            if *actual != size {
                let mut m = string_of("file ");
                push_str(&mut m, p.as_str());
                push_str(&mut m, " has ");
                push_decimal(&mut m, *actual);
                push_str(&mut m, " bytes; expected ");
                push_decimal(&mut m, size);
                Some(m)
            } else {
                None
            }
        },
    }
}

/// The identities that a download record binds, checked and in
/// `(path, size, blob_id)` order. The record must name an immutable revision
/// and a non-empty list of files, each with a safe relative path, a size, a
/// blob identity that is not blank, and the recorded size on disk; the first
/// entry that falls short is reported.
pub fn download_identities(revision: &Option<String>, files: &Option<Vec<DownloadFile>>) -> (r: Result<Vec<FileIdentity>, OracleError>)
    ensures
        !revision_ok(*revision) ==> (r matches Err(OracleError::Identity(m))
            && m@ == "immutable resolved_revision is missing"@),
        revision_ok(*revision) && files is None ==> (r matches Err(OracleError::Identity(m))
            && m@ == "download file identities are missing"@),
        revision_ok(*revision) && (files matches Some(fs) && fs@.len() == 0) ==> (r matches Err(
            OracleError::Identity(m)) && m@ == "download file identity list is empty"@),
        revision_ok(*revision) && (files matches Some(fs) && fs@.len() > 0) ==> {
            let fs = files->0@;
            &&& r is Ok <==> forall|i: int| 0 <= i < fs.len() ==> (#[trigger] entry_problem(fs[i])) is None
            &&& r matches Ok(ids) ==> ids@.to_multiset() == fs.map_values(|f: DownloadFile| identity_of(f)).to_multiset()
                && identities_sorted(ids@)
            &&& r is Err ==> exists|i: int| #![trigger fs[i]]
                0 <= i < fs.len() && (forall|k: int| 0 <= k < i ==> (#[trigger] entry_problem(fs[k])) is None)
                && (r matches Err(OracleError::Identity(m)) && entry_problem(fs[i]) == Some(m@))
        },
{
    let ok = match revision {
        Some(rev) => byte_len(rev.as_str()) >= 7,
        None => false,
    };
    if !ok {
        return Err(OracleError::Identity(string_of("immutable resolved_revision is missing")));
    }
    let fs = match files {
        None => return Err(OracleError::Identity(string_of("download file identities are missing"))),
        Some(fs) => fs,
    };
    if fs.len() == 0 {
        return Err(OracleError::Identity(string_of("download file identity list is empty")));
    }
    let ghost mapped = fs@.map_values(|f: DownloadFile| identity_of(f));
    let mut ids: Vec<FileIdentity> = Vec::new();
    let mut i: usize = 0;
    while i < fs.len()
        invariant
            i <= fs@.len(),
            revision_ok(*revision),
            files is Some,
            files->0@ == fs@,
            fs@.len() > 0,
            mapped == fs@.map_values(|f: DownloadFile| identity_of(f)),
            forall|k: int| 0 <= k < i ==> (#[trigger] entry_problem(fs@[k])) is None,
            ids@ == mapped.take(i as int),
        decreases fs@.len() - i,
    {
        let f = &fs[i];
        match entry_check(f) {
            Some(m) => {
                return Err(OracleError::Identity(m));
            },
            None => {},
        }
        let path = match &f.path {
            Some(p) => p.clone(),
            None => { assert(false); string_of("") },
        };
        let size = match f.size {
            Some(n) => n,
            None => { assert(false); 0 },
        };
        let blob_id = match &f.blob_id {
            Some(b) => b.clone(),
            None => { assert(false); string_of("") },
        };
        ids.push(FileIdentity { path, size, blob_id });
        assert(mapped.take(i + 1) =~= mapped.take(i as int).push(mapped[i as int]));
        i += 1;
    }
    assert(mapped.take(i as int) =~= mapped);
    Ok(sort_identities(ids))
}

/// Listing the same files in another order does not change the
/// fingerprint: identity lists that `download_identities` can return for two
/// download records holding the same entries give the same fingerprint
/// message.
pub proof fn law_download_order_irrelevant(
    revision: Seq<char>,
    files1: Seq<DownloadFile>,
    files2: Seq<DownloadFile>,
    ids1: Seq<FileIdentity>,
    ids2: Seq<FileIdentity>,
    config: Seq<u8>,
    manifest: Seq<u8>,
)
    requires
        files1.to_multiset() == files2.to_multiset(),
        ids1.to_multiset() == files1.map_values(|f: DownloadFile| identity_of(f)).to_multiset(),
        ids2.to_multiset() == files2.map_values(|f: DownloadFile| identity_of(f)).to_multiset(),
        identities_sorted(ids1),
        identities_sorted(ids2),
    ensures
        fingerprint_message_spec(revision, ids1, config, manifest) == fingerprint_message_spec(revision, ids2, config, manifest),
{
    lemma_multiset_map(files1, files2, |f: DownloadFile| identity_of(f));
    law_fingerprint_ignores_file_order(revision, ids1, ids2, config, manifest);
}

/// The fingerprint message: the framed revision, the framed identities in
/// the order given, then the framed names and bytes of `config.json` and of
/// the runtime manifest.
pub open spec fn fingerprint_message_spec(revision: Seq<char>, ids: Seq<FileIdentity>, config: Seq<u8>, manifest: Seq<u8>) -> Seq<u8> {
    framed(encode_utf8(revision)) + identity_frames(ids) + framed(encode_utf8("config.json"@)) + framed(config)
        + framed(encode_utf8(".sytra-runtime.json"@)) + framed(manifest)
}

pub fn fingerprint_message(revision: &str, identities: &Vec<FileIdentity>, config: &[u8], manifest: &[u8]) -> (m: Vec<u8>)
    ensures
        m@ == fingerprint_message_spec(revision@, identities@, config@, manifest@),
{
    let mut out: Vec<u8> = Vec::new();
    push_framed(&mut out, revision.as_bytes());
    let ghost head = out@;
    let mut i: usize = 0;
    while i < identities.len()
        invariant
            i <= identities@.len(),
            out@ == head + identity_frames(identities@.take(i as int)),
        decreases identities@.len() - i,
    {
        let id = &identities[i];
        let mut size_bytes: Vec<u8> = Vec::new();
        push_le64(&mut size_bytes, id.size);
        push_framed(&mut out, id.path.as_str().as_bytes());
        push_framed(&mut out, size_bytes.as_slice());
        push_framed(&mut out, id.blob_id.as_str().as_bytes());
        let ghost t = identities@.take(i + 1);
        assert(t.drop_last() =~= identities@.take(i as int));
        assert(out@ =~= head + identity_frames(identities@.take(i + 1)));
        i += 1;
    }
    assert(identities@.take(i as int) =~= identities@);
    push_framed(&mut out, "config.json".as_bytes());
    push_framed(&mut out, config);
    push_framed(&mut out, ".sytra-runtime.json".as_bytes());
    push_framed(&mut out, manifest);
    assert(out@ =~= fingerprint_message_spec(revision@, identities@, config@, manifest@));
    out
}

/// Lowercase hexadecimal digit of `d` (below 16).
pub open spec fn hex_digit(d: int) -> char {
    if d < 10 { ('0' as int + d) as char } else { ('a' as int + d - 10) as char }
}

/// Two lowercase hexadecimal digits per byte, high digit first (`{:x}`).
pub open spec fn hex(bytes: Seq<u8>) -> Seq<char>
    decreases bytes.len(),
{
    if bytes.len() == 0 {
        Seq::empty()
    } else {
        hex(bytes.drop_last()) + seq![hex_digit(bytes.last() as int / 16), hex_digit(bytes.last() as int % 16)]
    }
}

proof fn lemma_hex_len_ascii(bytes: Seq<u8>)
    ensures
        hex(bytes).len() == 2 * bytes.len(),
        is_ascii_chars(hex(bytes)),
    decreases bytes.len(),
{
    if bytes.len() > 0 {
        lemma_hex_len_ascii(bytes.drop_last());
        let h = hex(bytes.drop_last());
        let tail = seq![hex_digit(bytes.last() as int / 16), hex_digit(bytes.last() as int % 16)];
        assert forall|i: int| 0 <= i < hex(bytes).len() implies '\0' <= #[trigger] hex(bytes)[i] <= '\u{7f}' by {
            if i < h.len() {
                assert(hex(bytes)[i] == h[i]);
            } else {
                assert(hex(bytes)[i] == tail[i - h.len()]);
            }
        }
    }
}

fn hex_char(d: u8) -> (c: char)
    requires
        d < 16,
    ensures
        c == hex_digit(d as int),
{
    if d < 10 {
        ((48u8 + d) as char)
    } else {
        ((97u8 + d - 10) as char)
    }
}

/// The SHA-256 fingerprint of `message`, in lowercase hexadecimal.
pub fn digest_hex(message: &[u8]) -> (s: String)
    ensures
        s@ == hex(sha256_of(message@)),
        s@.len() == 64,
        encode_utf8(s@).len() == 64,
{
    let d = sha256(message);
    let mut s = String::new();
    let mut i: usize = 0;
    while i < d.len()
        invariant
            i <= d@.len(),
            s@ == hex(d@.take(i as int)),
        decreases d@.len() - i,
    {
        let b = d[i];
        crate::text::push_char(&mut s, hex_char(b / 16));
        crate::text::push_char(&mut s, hex_char(b % 16));
        let ghost t = d@.take(i + 1);
        assert(t.drop_last() =~= d@.take(i as int));
        assert(s@ =~= hex(d@.take(i + 1)));
        i += 1;
    }
    assert(d@.take(i as int) =~= d@);
    proof {
        lemma_hex_len_ascii(d@);
        is_ascii_chars_encode_utf8(s@);
    }
    s
}

/// The checkpoint fingerprint of a revision, its file identities (in the
/// order given) and the two configuration files.
pub fn checkpoint_digest(revision: &str, identities: &Vec<FileIdentity>, config: &[u8], manifest: &[u8]) -> (s: String)
    ensures
        s@ == hex(sha256_of(fingerprint_message_spec(revision@, identities@, config@, manifest@))),
        encode_utf8(s@).len() == 64,
{
    let message = fingerprint_message(revision, identities, config, manifest);
    digest_hex(message.as_slice())
}

} // verus!
