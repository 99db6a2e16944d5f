use vstd::prelude::*;

use crate::config::{ConfigError, LayerConfig, PlanEntry};

verus! {

/// One layer of an edition group as the configuration file states it; an
/// omitted pick bound is `None`.
pub struct LayerOrderConfiguration {
    _name: String,
    _pick_min: Option<u32>,
    _pick_max: Option<u32>,
}

pub struct LayerOrderView {
    pub name: Seq<char>,
    pub pick_min: Option<u32>,
    pub pick_max: Option<u32>,
}

impl View for LayerOrderConfiguration {
    type V = LayerOrderView;

    closed spec fn view(&self) -> LayerOrderView {
        LayerOrderView { name: self._name@, pick_min: self._pick_min, pick_max: self._pick_max }
    }
}

/// The plan entry a configured layer stands for: omitted bounds become 1.
pub open spec fn entry_of(o: LayerOrderView) -> PlanEntry {
    PlanEntry {
        name: o.name,
        pick_min: match o.pick_min {
            Some(v) => v,
            None => 1,
        },
        pick_max: match o.pick_max {
            Some(v) => v,
            None => 1,
        },
    }
}

pub open spec fn entry_valid(o: LayerOrderView) -> bool {
    entry_of(o).pick_min <= entry_of(o).pick_max
}

impl LayerOrderConfiguration {
    pub fn new(name: String, pick_min: Option<u32>, pick_max: Option<u32>) -> (r: LayerOrderConfiguration)
        ensures
            r@ == (LayerOrderView { name: name@, pick_min, pick_max }),
    {
        LayerOrderConfiguration { _name: name, _pick_min: pick_min, _pick_max: pick_max }
    }

    pub fn _get_name(&self) -> (r: &str)
        ensures
            r@ == self@.name,
    {
        self._name.as_str()
    }

    pub fn _get_pick_min(&self) -> (r: Option<u32>)
        ensures
            r == self@.pick_min,
    {
        self._pick_min
    }

    pub fn _get_pick_max(&self) -> (r: Option<u32>)
        ensures
            r == self@.pick_max,
    {
        self._pick_max
    }

    /// The validated plan entry: omitted bounds default to 1, an empty range is refused.
    pub fn to_layer_config(&self) -> (r: Result<LayerConfig, ConfigError>)
        ensures
            match r {
                Ok(c) => entry_valid(self@) && c@ == entry_of(self@),
                Err(e) => !entry_valid(self@) && e == ConfigError::InvalidPickRange {
                    min: entry_of(self@).pick_min,
                    max: entry_of(self@).pick_max,
                },
            },
    {
        LayerConfig::new(self._name.clone(), self._pick_min, self._pick_max)
    }
}

/// One edition group as the configuration file states it.
pub struct LayerConfiguration {
    _size: u32,
    _order: Vec<LayerOrderConfiguration>,
}

pub struct EditionGroupView {
    pub size: u32,
    pub order: Seq<LayerOrderView>,
}

impl View for LayerConfiguration {
    type V = EditionGroupView;

    closed spec fn view(&self) -> EditionGroupView {
        EditionGroupView {
            size: self._size,
            order: self._order@.map_values(|o: LayerOrderConfiguration| o@),
        }
    }
}

impl LayerConfiguration {
    pub fn new(size: u32, order: Vec<LayerOrderConfiguration>) -> (r: LayerConfiguration)
        ensures
            r@ == (EditionGroupView {
                size,
                order: order@.map_values(|o: LayerOrderConfiguration| o@),
            }),
    {
        LayerConfiguration { _size: size, _order: order }
    }

    pub fn _get_size(&self) -> (r: u32)
        ensures
            r == self@.size,
    {
        self._size
    }

    pub fn _get_order(&self) -> (r: &Vec<LayerOrderConfiguration>)
        ensures
            r@.map_values(|o: LayerOrderConfiguration| o@) == self@.order,
    {
        &self._order
    }

    /// The validated group: every layer becomes a plan entry, in order; the
    /// first layer with an empty pick range fails the group.
    pub fn to_group(&self) -> (r: Result<crate::config::LayerConfiguration, ConfigError>)
        ensures
            match r {
                Ok(g) => {
                    &&& forall|i: int| 0 <= i < self@.order.len() ==> entry_valid(#[trigger] self@.order[i])
                    &&& g@.size == self@.size
                    &&& g@.order == self@.order.map_values(|o: LayerOrderView| entry_of(o))
                },
                Err(e) => exists|k: int|
                    0 <= k < self@.order.len() && !entry_valid(#[trigger] self@.order[k]) && e
                        == ConfigError::InvalidPickRange {
                        min: entry_of(self@.order[k]).pick_min,
                        max: entry_of(self@.order[k]).pick_max,
                    },
            },
    {
        let ghost ov = self@.order;
        let mut entries: Vec<LayerConfig> = Vec::new();
        let mut i: usize = 0;
        while i < self._order.len()
            invariant
                i <= self._order.len(),
                ov == self@.order,
                ov == self._order@.map_values(|o: LayerOrderConfiguration| o@),
                entries@.len() == i,
                forall|k: int| 0 <= k < i ==> entry_valid(#[trigger] ov[k]),
                forall|k: int| 0 <= k < i ==> (#[trigger] entries@[k])@ == entry_of(ov[k]),
            decreases self._order.len() - i,
        {
            match self._order[i].to_layer_config() {
                Ok(c) => entries.push(c),
                Err(e) => {
                    assert(!entry_valid(ov[i as int]));
                    return Err(e);
                },
            }
            i = i + 1;
        }
        let g = crate::config::LayerConfiguration::_new(self._size, entries);
        assert(g@.order =~= ov.map_values(|o: LayerOrderView| entry_of(o)));
        Ok(g)
    }
}

/// The configuration of a run: metadata texts and the edition groups.
pub struct EditionConfiguration {
    _name: String,
    _description: String,
    _ipfs_uri: String,
    _layers: Vec<LayerConfiguration>,
}

pub struct EditionConfigView {
    pub name: Seq<char>,
    pub description: Seq<char>,
    pub ipfs_uri: Seq<char>,
    pub layers: Seq<EditionGroupView>,
}

impl View for EditionConfiguration {
    type V = EditionConfigView;

    closed spec fn view(&self) -> EditionConfigView {
        EditionConfigView {
            name: self._name@,
            description: self._description@,
            ipfs_uri: self._ipfs_uri@,
            layers: self._layers@.map_values(|l: LayerConfiguration| l@),
        }
    }
}

impl EditionConfiguration {
    pub fn new(
        name: String,
        description: String,
        ipfs_uri: String,
        layers: Vec<LayerConfiguration>,
    ) -> (r: EditionConfiguration)
        ensures
            r@ == (EditionConfigView {
                name: name@,
                description: description@,
                ipfs_uri: ipfs_uri@,
                layers: layers@.map_values(|l: LayerConfiguration| l@),
            }),
    {
        EditionConfiguration { _name: name, _description: description, _ipfs_uri: ipfs_uri, _layers: layers }
    }

    pub fn _get_name(&self) -> (r: &str)
        ensures
            r@ == self@.name,
    {
        self._name.as_str()
    }

    pub fn _get_description(&self) -> (r: &str)
        ensures
            r@ == self@.description,
    {
        self._description.as_str()
    }

    pub fn _get_ipfs_uri(&self) -> (r: &str)
        ensures
            r@ == self@.ipfs_uri,
    {
        self._ipfs_uri.as_str()
    }

    pub fn _get_layers(&self) -> (r: &Vec<LayerConfiguration>)
        ensures
            r@.map_values(|l: LayerConfiguration| l@) == self@.layers,
    {
        &self._layers
    }
}

} // verus!
