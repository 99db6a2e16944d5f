use vstd::prelude::*;

use crate::hashing::{sha256_hex, simple_sha256};
use vstd::utf8::encode_utf8;

pub mod app;
pub mod edition;

verus! {

/// Settings of one run of the engine.
pub struct Configuration {
    layers_dir: String,
    destination_dir: String,
    resize: bool,
    max_tries: u32,
    image_size: u32,
}

pub struct ConfigurationView {
    pub layers_dir: Seq<char>,
    pub destination_dir: Seq<char>,
    pub resize: bool,
    pub max_tries: u32,
    pub image_size: u32,
}

impl View for Configuration {
    type V = ConfigurationView;

    closed spec fn view(&self) -> ConfigurationView {
        ConfigurationView {
            layers_dir: self.layers_dir@,
            destination_dir: self.destination_dir@,
            resize: self.resize,
            max_tries: self.max_tries,
            image_size: self.image_size,
        }
    }
}

impl Configuration {
    pub fn new(
        layers_dir: String,
        destination_dir: String,
        resize: bool,
        max_tries: u32,
        image_size: u32,
    ) -> (r: Configuration)
        ensures
            r@ == (ConfigurationView {
                layers_dir: layers_dir@,
                destination_dir: destination_dir@,
                resize,
                max_tries,
                image_size,
            }),
    {
        Configuration { layers_dir, destination_dir, resize, max_tries, image_size }
    }

    pub fn get_layers_dir(&self) -> (r: &str)
        ensures
            r@ == self@.layers_dir,
    {
        self.layers_dir.as_str()
    }

    pub fn get_destination_dir(&self) -> (r: &str)
        ensures
            r@ == self@.destination_dir,
    {
        self.destination_dir.as_str()
    }

    pub fn get_max_tries(&self) -> (r: u32)
        ensures
            r == self@.max_tries,
    {
        self.max_tries
    }

    pub fn get_image_size(&self) -> (r: u32)
        ensures
            r == self@.image_size,
    {
        self.image_size
    }

    pub fn is_resize_enabled(&self) -> (r: bool)
        ensures
            r == self@.resize,
    {
        self.resize
    }
}

/// A rejected configuration value.
#[derive(Debug, Clone, Copy, PartialEq, Eq, Structural)]
pub enum ConfigError {
    /// A plan entry whose pick range is empty.
    InvalidPickRange { min: u32, max: u32 },
}

/// The pick bound used where a plan entry names none.
pub fn default_pick() -> (r: u32)
    ensures
        r == 1,
{
    1
}

/// The contents of a plan entry: draw between `pick_min` and `pick_max`
/// files of the layer `name`.
pub struct PlanEntry {
    pub name: Seq<char>,
    pub pick_min: u32,
    pub pick_max: u32,
}

/// One plan entry: which layer to draw from, and how many files.
pub struct LayerConfig {
    name: String,
    pick_min: u32,
    pick_max: u32,
}

impl View for LayerConfig {
    type V = PlanEntry;

    closed spec fn view(&self) -> PlanEntry {
        PlanEntry { name: self.name@, pick_min: self.pick_min, pick_max: self.pick_max }
    }
}

impl LayerConfig {
    #[verifier::type_invariant]
    spec fn ordered(&self) -> bool {
        self.pick_min <= self.pick_max
    }

    /// A plan entry; an omitted bound defaults to 1, and an empty range is rejected.
    pub fn new(name: String, pick_min: Option<u32>, pick_max: Option<u32>) -> (r: Result<
        LayerConfig,
        ConfigError,
    >)
        ensures
            ({
                let lo = match pick_min {
                    Some(v) => v,
                    None => 1,
                };
                let hi = match pick_max {
                    Some(v) => v,
                    None => 1,
                };
                match r {
                    Ok(c) => lo <= hi && c@ == PlanEntry { name: name@, pick_min: lo, pick_max: hi },
                    Err(e) => hi < lo && e == ConfigError::InvalidPickRange { min: lo, max: hi },
                }
            }),
    {
        let lo = match pick_min {
            Some(v) => v,
            None => default_pick(),
        };
        let hi = match pick_max {
            Some(v) => v,
            None => default_pick(),
        };
        if hi < lo {
            return Err(ConfigError::InvalidPickRange { min: lo, max: hi });
        }
        Ok(LayerConfig { name, pick_min: lo, pick_max: hi })
    }

    pub fn get_name(&self) -> (r: &str)
        ensures
            r@ == self@.name,
    {
        self.name.as_str()
    }

    pub fn get_pick_min(&self) -> (r: u32)
        ensures
            r == self@.pick_min,
            r <= self@.pick_max,
    {
        proof {
            use_type_invariant(self);
        }
        self.pick_min
    }

    pub fn get_pick_max(&self) -> (r: u32)
        ensures
            r == self@.pick_max,
            self@.pick_min <= r,
    {
        proof {
            use_type_invariant(self);
        }
        self.pick_max
    }
}

/// The layer names of a plan, joined by ':'.
pub open spec fn joined_names(order: Seq<PlanEntry>) -> Seq<char>
    decreases order.len(),
{
    if order.len() == 0 {
        Seq::empty()
    } else if order.len() == 1 {
        order[0].name
    } else {
        joined_names(order.drop_last()) + seq![':'] + order.last().name
    }
}

/// The fingerprint of a plan: the digest of its joined layer names.
pub open spec fn plan_dna(order: Seq<PlanEntry>) -> Seq<char> {
    sha256_hex(encode_utf8(joined_names(order)))
}

/// One edition group: how many editions to make, and the plan each follows.
pub struct LayerConfiguration {
    size: u32,
    order: Vec<LayerConfig>,
    dna: String,
}

pub struct GroupView {
    pub size: u32,
    pub order: Seq<PlanEntry>,
}

impl View for LayerConfiguration {
    type V = GroupView;

    closed spec fn view(&self) -> GroupView {
        GroupView { size: self.size, order: self.order@.map_values(|c: LayerConfig| c@) }
    }
}

/// Joins the layer names of `order` with ':'.
fn join_names(order: &Vec<LayerConfig>) -> (r: String)
    ensures
        r@ == joined_names(order@.map_values(|c: LayerConfig| c@)),
{
    let ghost entries = order@.map_values(|c: LayerConfig| c@);
    let mut out = String::new();
    let mut i: usize = 0;
    while i < order.len()
        invariant
            i <= order.len(),
            entries == order@.map_values(|c: LayerConfig| c@),
            out@ == joined_names(entries.take(i as int)),
        decreases order.len() - i,
    {
        proof {
            reveal_strlit(":");
        }
        if i > 0 {
            out.append(":");
        }
        out.append(order[i].get_name());
        assert(entries.take(i + 1).drop_last() =~= entries.take(i as int));
        assert(out@ =~= joined_names(entries.take(i + 1)));
        i = i + 1;
    }
    assert(entries.take(order.len() as int) =~= entries);
    out
}

impl LayerConfiguration {
    #[verifier::type_invariant]
    spec fn dna_matches(&self) -> bool {
        &&& self.dna@ == plan_dna(self.order@.map_values(|c: LayerConfig| c@))
        &&& self.dna@.len() == 64
    }

    /// A group; its fingerprint is computed once, here.
    pub fn _new(size: u32, order: Vec<LayerConfig>) -> (r: LayerConfiguration)
        ensures
            r@ == (GroupView { size, order: order@.map_values(|c: LayerConfig| c@) }),
    {
        let joined = join_names(&order);
        let dna = simple_sha256(joined.as_str().as_bytes());
        LayerConfiguration { size, order, dna }
    }

    pub fn get_size(&self) -> (r: u32)
        ensures
            r == self@.size,
    {
        self.size
    }

    pub fn get_order(&self) -> (r: &Vec<LayerConfig>)
        ensures
            r@.map_values(|c: LayerConfig| c@) == self@.order,
    {
        &self.order
    }

    /// The group's fingerprint: the digest of its layer names joined by ':'.
    pub fn get_dna(&self) -> (r: String)
        ensures
            r@ == plan_dna(self@.order),
            r@.len() == 64,
    {
        proof {
            use_type_invariant(self);
        }
        self.dna.clone()
    }
}

/// The groups of a run, with the texts its metadata uses.
pub struct LayerConfigurations {
    _name_prefix: String,
    _description: String,
    _ipfs_uri: String,
    layers: Vec<LayerConfiguration>,
}

impl LayerConfigurations {
    pub fn new(
        name_prefix: String,
        description: String,
        ipfs_uri: String,
        layers: Vec<LayerConfiguration>,
    ) -> (r: LayerConfigurations)
        ensures
            r.get_layers_spec() == layers@,
    {
        LayerConfigurations {
            _name_prefix: name_prefix,
            _description: description,
            _ipfs_uri: ipfs_uri,
            layers,
        }
    }

    pub closed spec fn get_layers_spec(&self) -> Seq<LayerConfiguration> {
        self.layers@
    }

    pub fn get_layers(&self) -> (r: &Vec<LayerConfiguration>)
        ensures
            r@ == self.get_layers_spec(),
    {
        &self.layers
    }
}

} // verus!
