use vstd::prelude::*;

use crate::config::edition::EditionConfiguration;
use crate::fingerprint::{flat, selection_view};
use crate::selector::{RngLayerFile, SelectedFile};
use crate::text::{before_first, decimal_string, find_char, push_decimal};

verus! {

/// One `{trait_type, value}` pair of an edition's metadata.
pub struct MetaAttribute {
    trait_type: String,
    value: String,
}

impl View for MetaAttribute {
    type V = (Seq<char>, Seq<char>);

    closed spec fn view(&self) -> (Seq<char>, Seq<char>) {
        (self.trait_type@, self.value@)
    }
}

impl MetaAttribute {
    pub fn get_trait_type(&self) -> (r: &str)
        ensures
            r@ == self@.0,
    {
        self.trait_type.as_str()
    }

    pub fn get_value(&self) -> (r: &str)
        ensures
            r@ == self@.1,
    {
        self.value.as_str()
    }
}

/// The trait a drawn file stands for: its layer, and its file name up to the first '.'.
pub open spec fn attribute_of(f: SelectedFile) -> (Seq<char>, Seq<char>) {
    (f.layer, before_first(f.file.name, '.'))
}

/// The metadata record of one edition.
pub struct Meta {
    name: String,
    description: String,
    image: String,
    attributes: Vec<MetaAttribute>,
}

pub struct MetaView {
    pub name: Seq<char>,
    pub description: Seq<char>,
    pub image: Seq<char>,
    pub attributes: Seq<(Seq<char>, Seq<char>)>,
}

impl View for Meta {
    type V = MetaView;

    closed spec fn view(&self) -> MetaView {
        MetaView {
            name: self.name@,
            description: self.description@,
            image: self.image@,
            attributes: self.attributes@.map_values(|a: MetaAttribute| a@),
        }
    }
}

/// The text of `s` up to its first '.'.
pub fn file_stem(s: &str) -> (r: String)
    ensures
        r@ == before_first(s@, '.'),
{
    let k = find_char(s, '.');
    proof {
        crate::text::lemma_first_index_bound(s@, '.');
    }
    s.substring_char(0, k).to_owned()
}

impl Meta {
    /// The record of edition `edition`: `{name} #{edition}`, the configured
    /// description, the image reference `{ipfs_uri}{image_name}`, and one
    /// attribute per drawn file, in selection order.
    pub fn new(
        edition: u32,
        edition_config: &EditionConfiguration,
        image_name: &str,
        selection: &Vec<Vec<RngLayerFile>>,
    ) -> (r: Meta)
        ensures
            r@.name == edition_config@.name + seq![' ', '#'] + decimal_string(edition as nat),
            r@.description == edition_config@.description,
            r@.image == edition_config@.ipfs_uri + image_name@,
            r@.attributes == flat(selection_view(selection@)).map_values(
                |f: SelectedFile| attribute_of(f),
            ),
    {
        let mut name = edition_config._get_name().to_owned();
        proof {
            reveal_strlit(" #");
        }
        name.append(" #");
        push_decimal(&mut name, edition as usize);
        let mut image = edition_config._get_ipfs_uri().to_owned();
        image.append(image_name);
        let ghost sv = selection_view(selection@);
        let mut attributes: Vec<MetaAttribute> = Vec::new();
        let mut i: usize = 0;
        while i < selection.len()
            invariant
                i <= selection.len(),
                sv == selection_view(selection@),
                attributes@.map_values(|a: MetaAttribute| a@) == flat(sv.take(i as int)).map_values(
                    |f: SelectedFile| attribute_of(f),
                ),
            decreases selection.len() - i,
        {
            let part = &selection[i];
            let ghost before = flat(sv.take(i as int));
            let mut j: usize = 0;
            while j < part.len()
                invariant
                    i < selection.len(),
                    j <= part.len(),
                    part == selection@[i as int],
                    sv == selection_view(selection@),
                    before == flat(sv.take(i as int)),
                    attributes@.map_values(|a: MetaAttribute| a@) == (before + sv[i as int].take(
                        j as int,
                    )).map_values(|f: SelectedFile| attribute_of(f)),
                decreases part.len() - j,
            {
                let f = &part[j];
                let attr = MetaAttribute {
                    trait_type: f.get_layer().to_owned(),
                    value: file_stem(f.get_file().get_name()),
                };
                let ghost prev = before + sv[i as int].take(j as int);
                let ghost next = before + sv[i as int].take(j + 1);
                assert(next =~= prev.push(part@[j as int]@));
                assert(attr@ == attribute_of(part@[j as int]@));
                let ghost old_attrs = attributes@;
                attributes.push(attr);
                assert(attributes@ =~= old_attrs.push(attr));
                let ghost lhs = attributes@.map_values(|a: MetaAttribute| a@);
                let ghost rhs = next.map_values(|f: SelectedFile| attribute_of(f));
                let ghost old_lhs = old_attrs.map_values(|a: MetaAttribute| a@);
                let ghost old_rhs = prev.map_values(|f: SelectedFile| attribute_of(f));
                assert(old_lhs == old_rhs);
                assert(old_lhs.len() == old_attrs.len());
                assert(old_rhs.len() == prev.len());
                assert(rhs.len() == next.len());
                assert(lhs.len() == rhs.len());
                assert forall|k: int| 0 <= k < lhs.len() implies lhs[k] == rhs[k] by {
                    if k < old_attrs.len() {
                        assert(old_lhs[k] == old_rhs[k]);
                        assert(lhs[k] == old_lhs[k]);
                        assert(rhs[k] == old_rhs[k]);
                    }
                }
                assert(lhs =~= rhs);
                j = j + 1;
            }
            assert(sv.take(i + 1).drop_last() =~= sv.take(i as int));
            assert(sv[i as int].take(part.len() as int) =~= sv[i as int]);
            i = i + 1;
        }
        assert(sv.take(selection.len() as int) =~= sv);
        Meta { name, description: edition_config._get_description().to_owned(), image, attributes }
    }

    pub fn get_name(&self) -> (r: &str)
        ensures
            r@ == self@.name,
    {
        self.name.as_str()
    }

    pub fn get_description(&self) -> (r: &str)
        ensures
            r@ == self@.description,
    {
        self.description.as_str()
    }

    pub fn get_image(&self) -> (r: &str)
        ensures
            r@ == self@.image,
    {
        self.image.as_str()
    }

    pub fn get_attributes(&self) -> (r: &Vec<MetaAttribute>)
        ensures
            r@.map_values(|a: MetaAttribute| a@) == self@.attributes,
    {
        &self.attributes
    }
}

/// The file name of an edition's outputs:
/// `{group fingerprint prefix}_{index}#{edition fingerprint prefix}{extension}`,
/// each prefix being the first six characters.
pub fn edition_file_name(group_dna: &str, index: u32, dna: &str, extension: &str) -> (r: String)
    requires
        group_dna@.len() >= 6,
        dna@.len() >= 6,
    ensures
        r@ == group_dna@.subrange(0, 6) + seq!['_'] + decimal_string(index as nat) + seq!['#']
            + dna@.subrange(0, 6) + extension@,
{
    let mut out = group_dna.substring_char(0, 6).to_owned();
    proof {
        reveal_strlit("_");
        reveal_strlit("#");
    }
    out.append("_");
    push_decimal(&mut out, index as usize);
    out.append("#");
    out.append(dna.substring_char(0, 6));
    out.append(extension);
    out
}

} // verus!
