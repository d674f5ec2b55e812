//! What frames come to when they arrive over several calls.
use crate::endpoints::TcpFsReceiver;
use crate::filesystem::{FileActionView, RemoteFileSystem};
use crate::framing::{found, split, Parts};
use crate::protocol::{FileFrameStatus, StreamableFileSystemErrors};
use crate::receiving::{chunks_of, Receipt};
use crate::streams::StreamReceiver;
use crate::wire::{arriving, cut_loses, law_stream_can_be_cut, left_after, left_over};
use vstd::prelude::*;

verus! {

/// A receiver that acts upon some frames and then upon others acts upon all of them.
pub proof fn law_frames_add_up(
    receipt: Receipt,
    state_id: u8,
    first: Seq<Seq<u8>>,
    second: Seq<Seq<u8>>,
)
    ensures
        receipt.after_frames(state_id, first + second) == receipt.after_frames(
            state_id,
            first,
        ).after_frames(state_id, second),
    decreases second.len(),
{
    let all = first + second;
    if second.len() == 0 {
        assert(all =~= first);
    } else {
        assert(all.drop_last() =~= first + second.drop_last());
        law_frames_add_up(receipt, state_id, first, second.drop_last());
    }
}

/// What frames come to does not depend on the actions that earlier ones asked for: these only stand in
/// front of the new ones.
pub proof fn law_earlier_actions_stay_in_front(
    receipt: Receipt,
    state_id: u8,
    frames: Seq<Seq<u8>>,
)
    ensures
        ({
            let clear = Receipt { actions: Seq::empty(), ..receipt };
            let after = clear.after_frames(state_id, frames);
            receipt.after_frames(state_id, frames) == (Receipt {
                actions: receipt.actions + after.actions,
                ..after
            })
        }),
    decreases frames.len(),
{
    let clear = Receipt { actions: Seq::<FileActionView>::empty(), ..receipt };
    let whole = receipt.after_frames(state_id, frames);
    let after = clear.after_frames(state_id, frames);
    if frames.len() == 0 {
        assert(receipt.actions + after.actions =~= receipt.actions);
    } else {
        let before = frames.drop_last();
        law_earlier_actions_stay_in_front(receipt, state_id, before);
        assert(whole.actions =~= receipt.actions + after.actions);
    }
}

/// After a failure, frames that arrive change nothing.
pub proof fn lemma_failure_stays(receipt: Receipt, state_id: u8, frames: Seq<Seq<u8>>)
    requires
        receipt.failure is Some,
    ensures
        receipt.after_frames(state_id, frames) == receipt,
    decreases frames.len(),
{
    if frames.len() > 0 {
        lemma_failure_stays(receipt, state_id, frames.drop_last());
    }
}

/// These fragments of a stream were taken in one after the other: the filesystem was the first of
/// those given, and after each call the next; and this was asked for, and came out, each time.
pub open spec fn received_in_turn<G>(
    filesystems: Seq<RemoteFileSystem<TcpFsReceiver, G>>,
    state_id: u8,
    fragments: Seq<Seq<u8>>,
    actions: Seq<Seq<FileActionView>>,
    outcomes: Seq<Option<Result<(), StreamableFileSystemErrors>>>,
) -> bool {
    &&& filesystems.len() == fragments.len() + 1
    &&& actions.len() == fragments.len()
    &&& outcomes.len() == fragments.len()
    &&& forall|i: int|
        0 <= i < fragments.len() ==> filesystems[i].receives(
            state_id,
            #[trigger] fragments[i],
            filesystems[i + 1],
            actions[i],
            outcomes[i],
        )
}

/// Calls in which fragments are taken in one after the other come to what all the frames that are found
/// on the way come to: the locations, whether a file is open, all the actions in order, and the outcome
/// of the last call. No call but the last may be one that ends the operation; and none does where the
/// frames bring no failure.
pub proof fn law_calls_add_up<G>(
    filesystems: Seq<RemoteFileSystem<TcpFsReceiver, G>>,
    state_id: u8,
    fragments: Seq<Seq<u8>>,
    actions: Seq<Seq<FileActionView>>,
    outcomes: Seq<Option<Result<(), StreamableFileSystemErrors>>>,
)
    requires
        received_in_turn(filesystems, state_id, fragments, actions, outcomes),
        filesystems[0].state.framing().start is Some,
    ensures
        ({
            let before = filesystems[0];
            let after = filesystems.last();
            let framing = before.state.framing();
            let receipt = before.receipt(
                state_id,
                arriving(framing, before.remainder@, fragments),
            );
            &&& receipt.failure is None ==> forall|i: int|
                0 <= i < outcomes.len() ==> #[trigger] outcomes[i] is None
            &&& (forall|i: int| 0 <= i < outcomes.len() - 1 ==> #[trigger] outcomes[i] is None) ==> {
                &&& after.locations() == receipt.locations
                &&& after.file_open == receipt.file_open
                &&& actions.flatten() == receipt.actions
                &&& outcomes.len() > 0 ==> outcomes.last() == receipt.outcome()
                &&& receipt.failure is None ==> after.remainder@ == left_after(
                    framing,
                    before.remainder@,
                    fragments,
                )
                &&& after == (RemoteFileSystem {
                    local_state: after.local_state,
                    file_open: after.file_open,
                    remainder: after.remainder,
                    ..before
                })
            }
        }),
    decreases fragments.len(),
{
    let before = filesystems[0];
    let framing = before.state.framing();
    let found_frames = arriving(framing, before.remainder@, fragments);
    let receipt = before.receipt(state_id, found_frames);
    if fragments.len() == 0 {
        assert(actions.flatten() =~= Seq::empty());
        assert(found_frames =~= Seq::empty());
    } else {
        let next = filesystems[1];
        assert(before.receives(state_id, fragments[0], next, actions[0], outcomes[0]));
        let stream = before.stream_with(fragments[0]);
        let first_frames = chunks_of(found(before.state.splits(stream)));
        let first = before.receipt(state_id, first_frames);
        let later_fragments = fragments.drop_first();
        let later_filesystems = filesystems.drop_first();
        let later_actions = actions.drop_first();
        let later_outcomes = outcomes.drop_first();
        let later_frames = arriving(framing, left_over(framing, stream), later_fragments);
        law_frames_add_up(before.starting_receipt(), state_id, first_frames, later_frames);
        assert(receipt == first.after_frames(state_id, later_frames));
        if first.failure is Some {
            lemma_failure_stays(first, state_id, later_frames);
            assert(outcomes[0] is Some);
            if fragments.len() == 1 {
                assert(actions =~= seq![actions[0]]);
                actions.lemma_flatten_one_element();
            }
        } else {
            assert forall|i: int| 0 <= i < later_fragments.len() implies later_filesystems[i].receives(
                state_id,
                #[trigger] later_fragments[i],
                later_filesystems[i + 1],
                later_actions[i],
                later_outcomes[i],
            ) by {
                assert(later_fragments[i] == fragments[i + 1]);
            }
            law_calls_add_up(
                later_filesystems,
                state_id,
                later_fragments,
                later_actions,
                later_outcomes,
            );
            law_earlier_actions_stay_in_front(first, state_id, later_frames);
            assert(Receipt { actions: Seq::<FileActionView>::empty(), ..first }
                =~= next.starting_receipt());
            let later = next.receipt(state_id, later_frames);
            assert(receipt == (Receipt { actions: first.actions + later.actions, ..later }));
            assert(actions.flatten() == actions[0] + later_actions.flatten());
            if receipt.failure is None {
                assert forall|i: int| 0 <= i < outcomes.len() implies #[trigger] outcomes[i] is None by {
                    if i > 0 {
                        assert(later_outcomes[i - 1] is None);
                    }
                }
            }
            if forall|i: int| 0 <= i < outcomes.len() - 1 ==> #[trigger] outcomes[i] is None {
                assert forall|i: int| 0 <= i < later_outcomes.len() - 1 implies #[trigger]
                    later_outcomes[i] is None by {
                    assert(outcomes[i + 1] is None);
                }
                if later_outcomes.len() == 0 {
                    assert(later_actions.flatten() =~= Seq::empty());
                    assert(later_frames =~= Seq::empty());
                } else {
                    assert(outcomes.last() == later_outcomes.last());
                }
            }
        }
    }
}

/// Two calls, to which bytes come in two parts, come to what one call does to which they come at once:
/// the locations, whether a file is open, the actions in order, and the outcome, unless the first part
/// ends the operation, or is thrown away with the beginning of a starting delimiter in it. What is left
/// is the same as well, unless a part is thrown away that brings no frame with it.
pub proof fn law_receiving_can_be_cut<G>(
    before: RemoteFileSystem<TcpFsReceiver, G>,
    between: RemoteFileSystem<TcpFsReceiver, G>,
    after: RemoteFileSystem<TcpFsReceiver, G>,
    at_once: RemoteFileSystem<TcpFsReceiver, G>,
    state_id: u8,
    first: Seq<u8>,
    second: Seq<u8>,
    first_actions: Seq<FileActionView>,
    second_actions: Seq<FileActionView>,
    all_actions: Seq<FileActionView>,
    outcome: Option<Result<(), StreamableFileSystemErrors>>,
    whole_outcome: Option<Result<(), StreamableFileSystemErrors>>,
)
    requires
        before.state.framing().delimited(),
        !cut_loses(before.state.framing(), before.stream_with(first), second),
        before.receives(state_id, first, between, first_actions, None),
        between.receives(state_id, second, after, second_actions, outcome),
        before.receives(state_id, first + second, at_once, all_actions, whole_outcome),
    ensures
        after.locations() == at_once.locations(),
        after.file_open == at_once.file_open,
        first_actions + second_actions == all_actions,
        outcome == whole_outcome,
        ({
            let thrown = Err::<Seq<Parts>, FileFrameStatus>(FileFrameStatus::FrameNoBegins);
            let earlier = before.state.splits(before.stream_with(first));
            let later = between.state.splits(between.stream_with(second));
            later is Ok || (later != thrown && earlier != thrown) ==> after.remainder@
                == at_once.remainder@
        }),
{
    let framing = before.state.framing();
    let stream = before.stream_with(first);
    let first_frames = chunks_of(found(split(framing, stream)));
    let second_frames = chunks_of(found(split(framing, left_over(framing, stream) + second)));
    let start = before.starting_receipt();
    assert(before.stream_with(first + second) =~= stream + second);
    law_stream_can_be_cut(framing, stream, second);
    law_frames_add_up(start, state_id, first_frames, second_frames);
    let middle = before.receipt(state_id, first_frames);
    law_earlier_actions_stay_in_front(middle, state_id, second_frames);
    assert(middle.failure is None);
    assert(Receipt { actions: Seq::<FileActionView>::empty(), ..middle }
        =~= between.starting_receipt());
}

} // verus!
