use vstd::prelude::*;

use crate::catalog::Layers;
use crate::config::LayerConfiguration;
use crate::controller::{offer_step, Attempt, RetryController};
use crate::fingerprint::{fingerprint, flat, selection_dna, selection_view};
use crate::selector::{entry_picks_ok, RngLayerFile, SelectedFile};

verus! {

/// One attempt of an edition group: draw a selection for every plan entry,
/// fingerprint it, and offer the fingerprint to the group's controller.
/// Returns the outcome, the selection and its fingerprint.
pub fn attempt_edition(
    layers: &Layers,
    group: &LayerConfiguration,
    controller: &mut RetryController,
) -> (r: (Attempt, Vec<Vec<RngLayerFile>>, String))
    requires
        old(controller)@.wf(),
        old(controller)@.is_running(),
    ensures
        r.1@.len() == group@.order.len(),
        forall|i: int|
            0 <= i < group@.order.len() ==> entry_picks_ok(
                layers@,
                #[trigger] group@.order[i],
                selection_view(r.1@)[i],
            ),
        r.2@ == selection_dna(selection_view(r.1@)),
        r.2@.len() == 64,
        final(controller)@ == offer_step(old(controller)@, r.2@),
        final(controller)@.wf(),
        old(controller)@.registry.contains(r.2@) ==> r.0 == (Attempt::Collided {
            retries: final(controller)@.retries,
            log: crate::controller::log_policy(final(controller)@.retries),
        }),
        !old(controller)@.registry.contains(r.2@) ==> r.0 == Attempt::Accepted(
            final(controller)@.accepted,
        ),
{
    let order = group.get_order();
    let selection = layers.select_edition(order);
    let dna = fingerprint(&selection);
    let outcome = controller.offer(dna.clone());
    proof {
        assert forall|i: int| 0 <= i < group@.order.len() implies entry_picks_ok(
            layers@,
            #[trigger] group@.order[i],
            selection_view(selection@)[i],
        ) by {
            assert(group@.order[i] == order@[i]@);
        }
    }
    (outcome, selection, dna)
}

/// The paths of the drawn files, in selection order: the layers to
/// composite, bottom first.
pub fn selection_paths(sel: &Vec<Vec<RngLayerFile>>) -> (r: Vec<String>)
    ensures
        r@.map_values(|p: String| p@) == flat(selection_view(sel@)).map_values(
            |f: SelectedFile| f.file.path,
        ),
{
    let ghost sv = selection_view(sel@);
    let mut out: Vec<String> = Vec::new();
    let mut i: usize = 0;
    while i < sel.len()
        invariant
            i <= sel.len(),
            sv == selection_view(sel@),
            out@.map_values(|p: String| p@) == flat(sv.take(i as int)).map_values(
                |f: SelectedFile| f.file.path,
            ),
        decreases sel.len() - i,
    {
        let part = &sel[i];
        let ghost before = flat(sv.take(i as int));
        let mut j: usize = 0;
        while j < part.len()
            invariant
                i < sel.len(),
                j <= part.len(),
                part == sel@[i as int],
                sv == selection_view(sel@),
                before == flat(sv.take(i as int)),
                out@.map_values(|p: String| p@) == (before + sv[i as int].take(j as int)).map_values(
                    |f: SelectedFile| f.file.path,
                ),
            decreases part.len() - j,
        {
            let path = part[j].get_path().to_owned();
            let ghost prev = before + sv[i as int].take(j as int);
            let ghost next = before + sv[i as int].take(j + 1);
            assert(next =~= prev.push(part@[j as int]@));
            let ghost old_out = out@;
            out.push(path);
            let ghost lhs = out@.map_values(|p: String| p@);
            let ghost rhs = next.map_values(|f: SelectedFile| f.file.path);
            let ghost old_lhs = old_out.map_values(|p: String| p@);
            let ghost old_rhs = prev.map_values(|f: SelectedFile| f.file.path);
            assert(old_lhs == old_rhs);
            assert(old_lhs.len() == old_out.len());
            assert(old_rhs.len() == prev.len());
            assert(rhs.len() == next.len());
            assert forall|k: int| 0 <= k < lhs.len() implies lhs[k] == rhs[k] by {
                if k < old_out.len() {
                    assert(old_lhs[k] == old_rhs[k]);
                }
            }
            assert(lhs =~= rhs);
            j = j + 1;
        }
        assert(sv.take(i + 1).drop_last() =~= sv.take(i as int));
        assert(sv[i as int].take(part.len() as int) =~= sv[i as int]);
        i = i + 1;
    }
    assert(sv.take(sel.len() as int) =~= sv);
    out
}

} // verus!
