use vstd::prelude::*;

use crate::hashing::{is_lower_hex, sha256_hex, simple_sha256};
use crate::selector::{files_view, RngLayerFile, SelectedFile};
use crate::text::{decimal_string, push_decimal};
use vstd::utf8::encode_utf8;

verus! {

/// The identity of one drawn file in a fingerprint: `{id}:{name}`.
pub open spec fn token(f: SelectedFile) -> Seq<char> {
    decimal_string(f.file.id) + seq![':'] + f.file.name
}

/// The tokens of `files`, in order, joined by '-'.
pub open spec fn canonical(files: Seq<SelectedFile>) -> Seq<char>
    decreases files.len(),
{
    if files.len() == 0 {
        Seq::empty()
    } else if files.len() == 1 {
        token(files[0])
    } else {
        canonical(files.drop_last()) + seq!['-'] + token(files.last())
    }
}

/// The files of a selection, entry after entry.
pub open spec fn flat(sel: Seq<Seq<SelectedFile>>) -> Seq<SelectedFile>
    decreases sel.len(),
{
    if sel.len() == 0 {
        Seq::empty()
    } else {
        flat(sel.drop_last()) + sel.last()
    }
}

pub open spec fn selection_view(sel: Seq<Vec<RngLayerFile>>) -> Seq<Seq<SelectedFile>> {
    sel.map_values(|v: Vec<RngLayerFile>| files_view(v@))
}

/// The fingerprint of a selection: the SHA-256 hex digest of its canonical string.
pub open spec fn selection_dna(sel: Seq<Seq<SelectedFile>>) -> Seq<char> {
    sha256_hex(encode_utf8(canonical(flat(sel))))
}

/// The canonical string of a selection: `{id}:{name}` for each drawn file,
/// in selection order, joined by '-'.
pub fn dna_string(sel: &Vec<Vec<RngLayerFile>>) -> (r: String)
    ensures
        r@ == canonical(flat(selection_view(sel@))),
{
    let ghost sv = selection_view(sel@);
    let mut out = String::new();
    let mut started = false;
    let mut i: usize = 0;
    while i < sel.len()
        invariant
            i <= sel.len(),
            sv == selection_view(sel@),
            out@ == canonical(flat(sv.take(i as int))),
            started == (flat(sv.take(i as int)).len() > 0),
        decreases sel.len() - i,
    {
        let part = &sel[i];
        let ghost before = flat(sv.take(i as int));
        let mut j: usize = 0;
        while j < part.len()
            invariant
                i < sel.len(),
                j <= part.len(),
                part == sel@[i as int],
                sv == selection_view(sel@),
                before == flat(sv.take(i as int)),
                out@ == canonical(before + sv[i as int].take(j as int)),
                started == ((before + sv[i as int].take(j as int)).len() > 0),
            decreases part.len() - j,
        {
            let f = part[j].get_file();
            let ghost prev = before + sv[i as int].take(j as int);
            let ghost next = before + sv[i as int].take(j + 1);
            assert(next.drop_last() =~= prev);
            assert(next.last() == part@[j as int]@);
            if started {
                proof {
                    reveal_strlit("-");
                }
                out.append("-");
            }
            push_decimal(&mut out, f.get_id());
            proof {
                reveal_strlit(":");
            }
            out.append(":");
            out.append(f.get_name());
            started = true;
            assert(out@ =~= canonical(next));
            j = j + 1;
        }
        assert(sv.take(i + 1).drop_last() =~= sv.take(i as int));
        assert(sv[i as int].take(part.len() as int) =~= sv[i as int]);
        i = i + 1;
    }
    assert(sv.take(sel.len() as int) =~= sv);
    out
}

/// The fingerprint ("DNA") of a selection.
pub fn fingerprint(sel: &Vec<Vec<RngLayerFile>>) -> (r: String)
    ensures
        r@ == selection_dna(selection_view(sel@)),
        r@.len() == 64,
        forall|i: int| 0 <= i < r@.len() ==> is_lower_hex(#[trigger] r@[i]),
{
    let s = dna_string(sel);
    simple_sha256(s.as_str().as_bytes())
}

/// The short form of a fingerprint used in file names and log lines: its
/// first six characters.
pub fn short_dna(dna: &str) -> (r: String)
    requires
        dna@.len() >= 6,
    ensures
        r@ == dna@.subrange(0, 6),
{
    dna.substring_char(0, 6).to_owned()
}

/// Two selections whose files agree, position by position, on id and name.
pub open spec fn same_identities(a: Seq<SelectedFile>, b: Seq<SelectedFile>) -> bool {
    &&& a.len() == b.len()
    &&& forall|j: int|
        0 <= j < a.len() ==> (#[trigger] a[j]).file.id == b[j].file.id && a[j].file.name
            == b[j].file.name
}

proof fn lemma_canonical_identities(a: Seq<SelectedFile>, b: Seq<SelectedFile>)
    requires
        same_identities(a, b),
    ensures
        canonical(a) == canonical(b),
    decreases a.len(),
{
    if a.len() > 1 {
        lemma_canonical_identities(a.drop_last(), b.drop_last());
    }
}

/// Fingerprinting is a pure function of the ordered file identities: two
/// selections drawing the same ids and names in the same order get the same
/// fingerprint, whatever else differs.
pub proof fn lemma_fingerprint_deterministic(a: Seq<Seq<SelectedFile>>, b: Seq<Seq<SelectedFile>>)
    requires
        same_identities(flat(a), flat(b)),
    ensures
        selection_dna(a) == selection_dna(b),
{
    lemma_canonical_identities(flat(a), flat(b));
}

} // verus!
