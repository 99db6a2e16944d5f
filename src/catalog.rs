use vstd::prelude::*;

use crate::text::{
    after_first, before_first, count_char, count_of, decimal_value, find_char, parse_u32,
    parses_as_u32, unsigned_digits,
};

verus! {

/// The rarity weight a file name carries as `name#weight.ext`: exactly one
/// '#', exactly one '.' after it, and a number between them. Any other name
/// weighs 1.
pub open spec fn weight_of(file_name: Seq<char>) -> u32 {
    if count_of(file_name, '#') == 1 {
        let tail = after_first(file_name, '#');
        if count_of(tail, '.') == 1 && parses_as_u32(before_first(tail, '.')) {
            decimal_value(unsigned_digits(before_first(tail, '.'))) as u32
        } else {
            1
        }
    } else {
        1
    }
}

/// The weight embedded in a file name, 1 when it carries none.
pub fn parse_weight(file_name: &str) -> (r: u32)
    ensures
        r == weight_of(file_name@),
{
    if count_char(file_name, '#') != 1 {
        return 1;
    }
    let n = file_name.unicode_len();
    let hash = find_char(file_name, '#');
    proof {
        lemma_count_positive_found(file_name@, '#');
    }
    let tail = file_name.substring_char(hash + 1, n);
    assert(tail@ == after_first(file_name@, '#'));
    if count_char(tail, '.') != 1 {
        return 1;
    }
    let dot = find_char(tail, '.');
    proof {
        lemma_count_positive_found(tail@, '.');
    }
    let head = tail.substring_char(0, dot);
    match parse_u32(head) {
        Some(v) => v,
        None => 1,
    }
}

/// A character that occurs is found before the end.
proof fn lemma_count_positive_found(s: Seq<char>, c: char)
    requires
        count_of(s, c) > 0,
    ensures
        crate::text::first_index(s, c) < s.len(),
    decreases s.len(),
{
    if s.len() > 0 && s[0] != c {
        let t = s.subrange(1, s.len() as int);
        lemma_count_split_first(s, c);
        lemma_count_positive_found(t, c);
    }
}

proof fn lemma_count_split_first(s: Seq<char>, c: char)
    requires
        s.len() > 0,
    ensures
        count_of(s, c) == count_of(s.subrange(1, s.len() as int), c) + if s[0] == c {
            1nat
        } else {
            0nat
        },
    decreases s.len(),
{
    if s.len() > 1 {
        let t = s.subrange(1, s.len() as int);
        lemma_count_split_first(s.drop_last(), c);
        assert(s.drop_last().subrange(1, s.len() - 1) =~= t.drop_last());
    } else {
        assert(s.subrange(1, s.len() as int) =~= Seq::<char>::empty());
        assert(s.drop_last() =~= Seq::<char>::empty());
    }
}

/// What the catalog knows of one asset file.
pub struct AssetFile {
    pub id: nat,
    pub name: Seq<char>,
    pub weight: u32,
    pub path: Seq<char>,
}

/// One candidate asset of a layer.
pub struct LayerFile {
    id: usize,
    name: String,
    weight: u32,
    path: String,
}

impl View for LayerFile {
    type V = AssetFile;

    closed spec fn view(&self) -> AssetFile {
        AssetFile { id: self.id as nat, name: self.name@, weight: self.weight, path: self.path@ }
    }
}

impl LayerFile {
    /// The file at position `id` of its layer, named `file_name`, found at `path`.
    pub fn new(id: usize, file_name: String, path: String) -> (r: LayerFile)
        ensures
            r@ == (AssetFile {
                id: id as nat,
                name: file_name@,
                weight: weight_of(file_name@),
                path: path@,
            }),
    {
        let weight = parse_weight(file_name.as_str());
        LayerFile { id, name: file_name, weight, path }
    }

    pub fn get_id(&self) -> (r: usize)
        ensures
            r == self@.id,
    {
        self.id
    }

    pub fn get_name(&self) -> (r: &str)
        ensures
            r@ == self@.name,
    {
        self.name.as_str()
    }

    pub fn get_weight(&self) -> (r: u32)
        ensures
            r == self@.weight,
    {
        self.weight
    }

    pub fn get_path(&self) -> (r: &str)
        ensures
            r@ == self@.path,
    {
        self.path.as_str()
    }

    /// A copy that keeps every field.
    pub fn duplicate(&self) -> (r: LayerFile)
        ensures
            r@ == self@,
    {
        LayerFile {
            id: self.id,
            name: self.name.clone(),
            weight: self.weight,
            path: self.path.clone(),
        }
    }
}

/// A layer as the catalog holds it.
pub struct LayerView {
    pub name: Seq<char>,
    pub files: Seq<AssetFile>,
}

/// The file name and the path of one directory entry.
pub type Entry = (String, String);

/// The catalog entry of `name` built from the entries of its directory, in order.
pub open spec fn layer_of(name: Seq<char>, entries: Seq<(Seq<char>, Seq<char>)>) -> LayerView {
    LayerView {
        name,
        files: Seq::new(
            entries.len(),
            |i: int|
                AssetFile {
                    id: i as nat,
                    name: entries[i].0,
                    weight: weight_of(entries[i].0),
                    path: entries[i].1,
                },
        ),
    }
}

pub open spec fn entries_view(entries: Seq<Entry>) -> Seq<(Seq<char>, Seq<char>)> {
    entries.map_values(|e: Entry| (e.0@, e.1@))
}

/// A named category of interchangeable assets; never empty, and each file's
/// id is its position.
pub struct Layer {
    name: String,
    files: Vec<LayerFile>,
}

impl View for Layer {
    type V = LayerView;

    closed spec fn view(&self) -> LayerView {
        LayerView { name: self.name@, files: self.files@.map_values(|f: LayerFile| f@) }
    }
}

/// Why the catalog could not be built.
#[derive(Debug)]
pub enum CatalogError {
    /// The layer with this name holds no file.
    EmptyLayer(String),
}

impl Layer {
    #[verifier::type_invariant]
    spec fn well_formed(&self) -> bool {
        &&& self.files@.len() > 0
        &&& forall|i: int| 0 <= i < self.files@.len() ==> (#[trigger] self.files@[i])@.id == i
    }

    /// The layer `name` with one file per entry, ids counting from 0 in entry
    /// order; a layer without entries is refused.
    pub fn try_from_entries(name: String, entries: &Vec<Entry>) -> (r: Result<Layer, CatalogError>)
        ensures
            match r {
                Ok(layer) => entries@.len() > 0 && layer@ == layer_of(name@, entries_view(entries@)),
                Err(CatalogError::EmptyLayer(n)) => entries@.len() == 0 && n@ == name@,
            },
    {
        if entries.len() == 0 {
            return Err(CatalogError::EmptyLayer(name));
        }
        let ghost ev = entries_view(entries@);
        let mut files: Vec<LayerFile> = Vec::new();
        let mut i: usize = 0;
        while i < entries.len()
            invariant
                i <= entries.len(),
                ev == entries_view(entries@),
                files@.len() == i,
                forall|j: int|
                    0 <= j < i ==> (#[trigger] files@[j])@ == layer_of(name@, ev).files[j],
            decreases entries.len() - i,
        {
            let f = LayerFile::new(i, entries[i].0.clone(), entries[i].1.clone());
            files.push(f);
            i = i + 1;
        }
        let layer = Layer { name, files };
        assert(layer@.files =~= layer_of(layer.name@, ev).files);
        Ok(layer)
    }

    pub fn get_name(&self) -> (r: &str)
        ensures
            r@ == self@.name,
    {
        self.name.as_str()
    }

    pub fn get_files(&self) -> (r: &Vec<LayerFile>)
        ensures
            r@.map_values(|f: LayerFile| f@) == self@.files,
            r@.len() > 0,
            forall|i: int| 0 <= i < r@.len() ==> (#[trigger] r@[i])@.id == i,
    {
        proof {
            use_type_invariant(self);
        }
        &self.files
    }
}

/// The position of the first layer called `name`, if any.
pub open spec fn find_layer(layers: Seq<LayerView>, name: Seq<char>) -> Option<int>
    decreases layers.len(),
{
    if layers.len() == 0 {
        None
    } else {
        match find_layer(layers.drop_last(), name) {
            Some(i) => Some(i),
            None => if layers.last().name == name {
                Some(layers.len() - 1)
            } else {
                None
            },
        }
    }
}

/// The layer catalog: layer name to its candidate files.
pub struct Layers {
    layers: Vec<Layer>,
}

impl View for Layers {
    type V = Seq<LayerView>;

    closed spec fn view(&self) -> Seq<LayerView> {
        self.layers@.map_values(|l: Layer| l@)
    }
}

/// A directory of the catalog root: the layer's name and the entries inside it.
pub type LayerEntries = (String, Vec<Entry>);

impl Layers {
    /// Builds the catalog from the layer directories, in order. The first
    /// layer without files fails the whole catalog.
    pub fn from_entries(dirs: &Vec<LayerEntries>) -> (r: Result<Layers, CatalogError>)
        ensures
            match r {
                Ok(c) => {
                    &&& c@.len() == dirs@.len()
                    &&& forall|i: int|
                        0 <= i < dirs@.len() ==> c@[i] == layer_of(
                            (#[trigger] dirs@[i]).0@,
                            entries_view(dirs@[i].1@),
                        )
                    &&& forall|i: int| 0 <= i < dirs@.len() ==> (#[trigger] dirs@[i]).1@.len() > 0
                },
                Err(CatalogError::EmptyLayer(n)) => exists|k: int|
                    0 <= k < dirs@.len() && (#[trigger] dirs@[k]).1@.len() == 0 && n@ == dirs@[k].0@
                        && forall|j: int| 0 <= j < k ==> (#[trigger] dirs@[j]).1@.len() > 0,
            },
    {
        let mut layers: Vec<Layer> = Vec::new();
        let mut i: usize = 0;
        while i < dirs.len()
            invariant
                i <= dirs.len(),
                layers@.len() == i,
                forall|j: int|
                    0 <= j < i ==> (#[trigger] layers@[j])@ == layer_of(
                        dirs@[j].0@,
                        entries_view(dirs@[j].1@),
                    ),
                forall|j: int| 0 <= j < i ==> (#[trigger] dirs@[j]).1@.len() > 0,
            decreases dirs.len() - i,
        {
            let name = dirs[i].0.clone();
            match Layer::try_from_entries(name, &dirs[i].1) {
                Ok(layer) => layers.push(layer),
                Err(e) => {
                    return Err(e);
                },
            }
            i = i + 1;
        }
        let c = Layers { layers };
        assert(c@.len() == dirs@.len());
        Ok(c)
    }

    /// The first layer called `name`.
    pub fn get_layer(&self, name: &str) -> (r: Option<&Layer>)
        ensures
            match find_layer(self@, name@) {
                Some(i) => r matches Some(l) && l@ == self@[i],
                None => r is None,
            },
    {
        let ghost v = self@;
        let mut i: usize = 0;
        while i < self.layers.len()
            invariant
                i <= self.layers.len(),
                v == self@,
                find_layer(v.take(i as int), name@) is None,
            decreases self.layers.len() - i,
        {
            assert(v.take(i + 1).drop_last() =~= v.take(i as int));
            let l = &self.layers[i];
            if str_eq(l.get_name(), name) {
                proof {
                    lemma_find_layer_prefix(v, name@, i + 1);
                }
                return Some(l);
            }
            i = i + 1;
        }
        assert(v.take(self.layers.len() as int) =~= v);
        None
    }

    pub fn len(&self) -> (r: usize)
        ensures
            r == self@.len(),
    {
        self.layers.len()
    }
}

/// A match found in a prefix is the match of the whole catalog.
proof fn lemma_find_layer_prefix(v: Seq<LayerView>, name: Seq<char>, k: int)
    requires
        0 <= k <= v.len(),
        find_layer(v.take(k), name) is Some,
    ensures
        find_layer(v, name) == find_layer(v.take(k), name),
    decreases v.len() - k,
{
    if k < v.len() {
        assert(v.take(k + 1).drop_last() =~= v.take(k));
        lemma_find_layer_prefix(v, name, k + 1);
    } else {
        assert(v.take(k) =~= v);
    }
}

/// Whether two strings hold the same characters.
pub fn str_eq(a: &str, b: &str) -> (r: bool)
    ensures
        r == (a@ == b@),
{
    let n = a.unicode_len();
    if n != b.unicode_len() {
        return false;
    }
    let mut i: usize = 0;
    while i < n
        invariant
            i <= n,
            n == a@.len(),
            n == b@.len(),
            a@.subrange(0, i as int) == b@.subrange(0, i as int),
        decreases n - i,
    {
        if a.get_char(i) != b.get_char(i) {
            return false;
        }
        assert(a@.subrange(0, i + 1) =~= a@.subrange(0, i as int).push(a@[i as int]));
        assert(b@.subrange(0, i + 1) =~= b@.subrange(0, i as int).push(b@[i as int]));
        i = i + 1;
    }
    assert(a@ =~= a@.subrange(0, n as int));
    assert(b@ =~= b@.subrange(0, n as int));
    true
}

} // verus!
