use vstd::prelude::*;

use crate::catalog::{find_layer, AssetFile, Layer, LayerFile, LayerView, Layers};
use crate::config::{LayerConfig, PlanEntry};

verus! {

/// Relies on `rand::Rng::gen_range` over `min..=max` with the thread-local
/// generator: a value inside the range, drawn uniformly. It panics on an
/// empty range.
#[verifier::external_body]
fn random_in_range(min: u32, max: u32) -> (r: u32)
    requires
        min <= max,
    ensures
        min <= r <= max,
{
    rand::Rng::gen_range(&mut rand::thread_rng(), min..=max)
}

/// Relies on `rand::seq::index::sample` with the thread-local generator:
/// exactly `amount` distinct indices below `length`. It panics when `amount`
/// exceeds `length`.
#[verifier::external_body]
fn sample_indices(length: usize, amount: usize) -> (r: Vec<usize>)
    requires
        amount <= length,
    ensures
        r@.len() == amount,
        r@.no_duplicates(),
        forall|i: int| 0 <= i < r@.len() ==> #[trigger] r@[i] < length,
{
    rand::seq::index::sample(&mut rand::thread_rng(), length, amount).into_vec()
}

/// One drawn file, with the layer it was drawn from.
pub struct SelectedFile {
    pub layer: Seq<char>,
    pub file: AssetFile,
}

/// A file drawn for an edition.
pub struct RngLayerFile {
    layer: String,
    file: LayerFile,
}

impl View for RngLayerFile {
    type V = SelectedFile;

    closed spec fn view(&self) -> SelectedFile {
        SelectedFile { layer: self.layer@, file: self.file@ }
    }
}

impl RngLayerFile {
    pub fn get_layer(&self) -> (r: &str)
        ensures
            r@ == self@.layer,
    {
        self.layer.as_str()
    }

    pub fn get_path(&self) -> (r: &str)
        ensures
            r@ == self@.file.path,
    {
        self.file.get_path()
    }

    pub fn get_file(&self) -> (r: &LayerFile)
        ensures
            r@ == self@.file,
    {
        &self.file
    }
}

pub open spec fn files_view(files: Seq<RngLayerFile>) -> Seq<SelectedFile> {
    files.map_values(|f: RngLayerFile| f@)
}

pub open spec fn min_of(a: nat, b: nat) -> nat {
    if a <= b {
        a
    } else {
        b
    }
}

/// `picks` were drawn from `layer` for `entry`: between the entry's bounds
/// (both capped at the layer's size) distinct files of that layer.
pub open spec fn picks_ok(layer: LayerView, entry: PlanEntry, picks: Seq<SelectedFile>) -> bool {
    let n = layer.files.len();
    &&& min_of(entry.pick_min as nat, n) <= picks.len() <= min_of(entry.pick_max as nat, n)
    &&& forall|j: int|
        0 <= j < picks.len() ==> {
            &&& (#[trigger] picks[j]).layer == layer.name
            &&& picks[j].file.id < n
            &&& picks[j].file == layer.files[picks[j].file.id as int]
        }
    &&& forall|j: int, k: int|
        0 <= j < picks.len() && 0 <= k < picks.len() && j != k ==> (#[trigger] picks[j]).file.id
            != (#[trigger] picks[k]).file.id
}

/// What one plan entry contributes to a selection from `catalog`: nothing
/// when no layer has its name, else valid picks from the first such layer.
pub open spec fn entry_picks_ok(catalog: Seq<LayerView>, entry: PlanEntry, picks: Seq<SelectedFile>) -> bool {
    match find_layer(catalog, entry.name) {
        None => picks.len() == 0,
        Some(i) => picks_ok(catalog[i], entry, picks),
    }
}

/// The number of files drawn: the drawn count, capped at what the layer holds.
pub fn clamp_pick(count: u32, available: usize) -> (r: usize)
    ensures
        r == min_of(count as nat, available as nat),
{
    if (count as u64) < (available as u64) {
        count as usize
    } else {
        available
    }
}

impl Layer {
    /// The files at positions `indices`, in that order, tagged with this layer's name.
    pub fn pick_files(&self, indices: &Vec<usize>) -> (r: Vec<RngLayerFile>)
        requires
            forall|i: int| 0 <= i < indices@.len() ==> #[trigger] indices@[i] < self@.files.len(),
        ensures
            r@.len() == indices@.len(),
            forall|i: int|
                0 <= i < r@.len() ==> (#[trigger] r@[i])@ == (SelectedFile {
                    layer: self@.name,
                    file: self@.files[indices@[i] as int],
                }),
    {
        let files = self.get_files();
        let mut out: Vec<RngLayerFile> = Vec::new();
        let mut i: usize = 0;
        while i < indices.len()
            invariant
                i <= indices.len(),
                out@.len() == i,
                files@.map_values(|f: LayerFile| f@) == self@.files,
                forall|k: int| 0 <= k < indices@.len() ==> #[trigger] indices@[k] < self@.files.len(),
                forall|k: int|
                    0 <= k < i ==> (#[trigger] out@[k])@ == (SelectedFile {
                        layer: self@.name,
                        file: self@.files[indices@[k] as int],
                    }),
            decreases indices.len() - i,
        {
            let idx = indices[i];
            let picked = RngLayerFile {
                layer: self.get_name().to_owned(),
                file: files[idx].duplicate(),
            };
            out.push(picked);
            i = i + 1;
        }
        out
    }

    /// Draws `count` files (capped at the layer's size), distinct, at random.
    pub fn draw(&self, count: u32) -> (r: Vec<RngLayerFile>)
        ensures
            picks_ok(
                self@,
                PlanEntry { name: self@.name, pick_min: count, pick_max: count },
                files_view(r@),
            ),
    {
        let files = self.get_files();
        let k = clamp_pick(count, files.len());
        let indices = sample_indices(files.len(), k);
        let r = self.pick_files(&indices);
        proof {
            let v = files_view(r@);
            assert forall|j: int| 0 <= j < v.len() implies (#[trigger] v[j]).file.id == indices@[j] by {
                assert(files@[indices@[j] as int]@.id == indices@[j]);
            }
            assert forall|j: int, m: int|
                0 <= j < v.len() && 0 <= m < v.len() && j != m implies (#[trigger] v[j]).file.id
                != (#[trigger] v[m]).file.id by {
                assert(v[j].file.id == indices@[j]);
                assert(v[m].file.id == indices@[m]);
            }
        }
        r
    }
}

impl Layers {
    /// Draws files for one plan entry: a count uniform in `[min, max]`
    /// (no draw when both are equal), capped at the layer's size, then that
    /// many distinct files. A name without a layer draws nothing.
    pub fn get_rng_files(&self, name: &str, min: u32, max: u32) -> (r: Vec<RngLayerFile>)
        requires
            min <= max,
        ensures
            entry_picks_ok(self@, PlanEntry { name: name@, pick_min: min, pick_max: max }, files_view(r@)),
    {
        match self.get_layer(name) {
            None => Vec::new(),
            Some(layer) => {
                let count = if min == max {
                    min
                } else {
                    random_in_range(min, max)
                };
                layer.draw(count)
            },
        }
    }

    /// A selection for one edition: for each plan entry in order, the files
    /// drawn from its layer.
    pub fn select_edition(&self, order: &Vec<LayerConfig>) -> (r: Vec<Vec<RngLayerFile>>)
        ensures
            r@.len() == order@.len(),
            forall|i: int|
                0 <= i < order@.len() ==> entry_picks_ok(
                    self@,
                    (#[trigger] order@[i])@,
                    files_view(r@[i]@),
                ),
    {
        let mut out: Vec<Vec<RngLayerFile>> = Vec::new();
        let mut i: usize = 0;
        while i < order.len()
            invariant
                i <= order.len(),
                out@.len() == i,
                forall|k: int|
                    0 <= k < i ==> entry_picks_ok(self@, (#[trigger] order@[k])@, files_view(out@[k]@)),
            decreases order.len() - i,
        {
            let entry = &order[i];
            let picks = self.get_rng_files(entry.get_name(), entry.get_pick_min(), entry.get_pick_max());
            out.push(picks);
            i = i + 1;
        }
        out
    }
}

} // verus!
