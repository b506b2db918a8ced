//! The preview of the input image. Each load gets the next epoch, and a
//! load that ends is applied only if no later load was begun meanwhile.

use vstd::prelude::*;

verus! {

/// What the preview shows.
#[derive(Debug, PartialEq, Eq)]
pub enum InputPreviewPayload<T> {
    NoneSelected,
    Loading,
    Loaded(T),
}

/// The preview and the epoch of the load that was begun last.
#[derive(Debug, PartialEq, Eq)]
pub struct InputPreview<T> {
    pub payload: InputPreviewPayload<T>,
    pub epoch: usize,
}

/// The preview once a load is begun: it waits under the next epoch.
pub open spec fn after_begin<T>(preview: InputPreview<T>) -> InputPreview<T> {
    InputPreview { payload: InputPreviewPayload::Loading, epoch: (preview.epoch + 1) as usize }
}

/// The preview once the load that was begun with `epoch` has ended: its
/// result is shown if no load was begun since, else nothing changes.
pub open spec fn after_finish<T>(preview: InputPreview<T>, epoch: usize, loaded: T) -> InputPreview<T> {
    if epoch == preview.epoch {
        InputPreview { payload: InputPreviewPayload::Loaded(loaded), epoch: preview.epoch }
    } else {
        preview
    }
}

/// A load that another load has superseded is dropped when it ends, and
/// the later load is shown when it ends, in whichever order they end.
pub proof fn lemma_superseded_load_is_dropped<T>(preview: InputPreview<T>, stale: T, fresh: T)
    requires
        preview.epoch + 2 <= usize::MAX,
    ensures
        ({
            let first = after_begin(preview);
            let second = after_begin(first);
            &&& first.epoch < second.epoch
            &&& after_finish(second, first.epoch, stale) == second
            &&& after_finish(second, second.epoch, fresh).payload == InputPreviewPayload::Loaded(
                fresh,
            )
            &&& after_finish(after_finish(second, second.epoch, fresh), first.epoch, stale)
                == after_finish(second, second.epoch, fresh)
        }),
{
}

impl<T> InputPreview<T> {
    /// A preview with nothing selected.
    pub fn new() -> (preview: InputPreview<T>)
        ensures
            preview.payload == InputPreviewPayload::<T>::NoneSelected,
            preview.epoch == 0,
    {
        InputPreview { payload: InputPreviewPayload::NoneSelected, epoch: 0 }
    }

    /// Begins a load and returns its epoch, which is greater than that
    /// of every load begun before.
    pub fn begin_load(&mut self) -> (epoch: usize)
        requires
            old(self).epoch < usize::MAX,
        ensures
            epoch == old(self).epoch + 1,
            *final(self) == after_begin(*old(self)),
    {
        self.epoch = self.epoch + 1;
        self.payload = InputPreviewPayload::Loading;
        self.epoch
    }

    /// Ends the load that was begun with `epoch`. Its result is shown
    /// if no load was begun since; else it is dropped and the preview
    /// stays as it is.
    pub fn finish_load(&mut self, epoch: usize, loaded: T) -> (applied: bool)
        ensures
            applied == (epoch == old(self).epoch),
            *final(self) == after_finish(*old(self), epoch, loaded),
    {
        if self.epoch == epoch {
            self.payload = InputPreviewPayload::Loaded(loaded);
            true
        } else {
            false
        }
    }
}

} // verus!
