//! The run: which step comes next, given how the last one went. The driver
//! carries the steps out and reports back; every decision is taken here.

use vstd::prelude::*;
use crate::codec::{decode_png, encode_png, png_decoded, png_encoded};
use crate::compose::{
    border_color, card_back, compose_border, composed, solid, BORDER_WIDTH, CARD_HEIGHT,
    CARD_WIDTH,
};
use crate::deck::{copies, lemma_copies_prefix, models, total_copies, DeckEntry, EntryModel};
use crate::error::{IoStage, PipelineError};
use crate::paging::{locate, page_of, slot_of, DECK_SIZE};
use crate::pixel::Rgb8;

verus! {

/// The bytes of the PNG file of the bordered card that the downloaded
/// bytes `png` hold, or the reason why there is none: the bytes do not
/// decode, the picture has not the size of a card, or it does not encode.
pub open spec fn bordered_png(png: Seq<u8>) -> Result<Seq<u8>, PipelineError> {
    match png_decoded(png) {
        None => Err(PipelineError::Io { stage: IoStage::Decode }),
        Some(picture) => if picture.width == CARD_WIDTH && picture.height == CARD_HEIGHT {
            match png_encoded(composed(picture, BORDER_WIDTH as nat, Rgb8 { r: 0, g: 0, b: 0 })) {
                Some(bytes) => Ok(bytes),
                None => Err(PipelineError::Io { stage: IoStage::Encode }),
            }
        } else {
            Err(
                PipelineError::DimensionMismatch {
                    width: picture.width as u32,
                    height: picture.height as u32,
                },
            )
        },
    }
}

/// The bytes of the PNG file of the card back, unless it does not encode.
pub open spec fn back_png() -> Result<Seq<u8>, PipelineError> {
    match png_encoded(
        solid(
            (CARD_WIDTH + 2 * BORDER_WIDTH) as nat,
            (CARD_HEIGHT + 2 * BORDER_WIDTH) as nat,
            Rgb8 { r: 255, g: 255, b: 255 },
        ),
    ) {
        Some(bytes) => Ok(bytes),
        None => Err(PipelineError::Io { stage: IoStage::Encode }),
    }
}

/// Turns the downloaded bytes of a card image into the bytes of the file
/// of the bordered card: decodes them, checks the size, adds the black
/// frame and encodes the result.
pub fn border_card(png: &[u8]) -> (res: Result<Vec<u8>, PipelineError>)
    ensures
        bordered_png(png@) matches Ok(bytes) ==> res is Ok && res->Ok_0@ == bytes,
        bordered_png(png@) matches Err(error) ==> res is Err && res->Err_0 == error,
{
    let source = match decode_png(png) {
        Err(error) => {
            return Err(error);
        },
        Ok(source) => source,
    };
    assert((CARD_WIDTH + 2 * BORDER_WIDTH) * (CARD_HEIGHT + 2 * BORDER_WIDTH) == 908504)
        by (nonlinear_arith);
    let bordered = match compose_border(&source, BORDER_WIDTH, border_color()) {
        Err(error) => {
            return Err(error);
        },
        Ok(bordered) => bordered,
    };
    encode_png(&bordered)
}

/// The bytes of the file of the card back.
pub fn encode_back() -> (res: Result<Vec<u8>, PipelineError>)
    ensures
        back_png() matches Ok(bytes) ==> res is Ok && res->Ok_0@ == bytes,
        back_png() matches Err(error) ==> res is Err && res->Err_0 == error,
{
    let back = card_back();
    encode_png(&back)
}

/// Where a run stands.
#[derive(Clone, Copy, Debug, PartialEq, Eq, Structural)]
pub enum Phase {
    /// The output root is being removed.
    Clearing,
    /// The card of the current entry is being looked up.
    Lookup,
    /// The image of the current entry's card is being downloaded.
    Download,
    /// A copy of the current entry's bordered image is being written.
    Writing,
    /// The card back is being written.
    Backing,
    /// Everything is written.
    Finished,
    /// The run has failed.
    Aborted,
}

/// What the driver is to do next.
#[derive(Clone, Copy, Debug, PartialEq, Eq, Structural)]
pub enum Action {
    /// Remove the output root and all that is in it.
    ClearOutput,
    /// Look up the card of the entry at this position.
    LookUpCard { entry: usize },
    /// Download the image of the card that was found for the entry at this position.
    DownloadImage { entry: usize },
    /// Make sure that the directory of deck `page` exists, and write the
    /// run's image to the file of position `slot` in it.
    WriteCopy { page: usize, slot: usize },
    /// Write the run's image to the file of the card back.
    WriteBack,
    /// Report that `saved` files were written for `unique` entries, and stop.
    Finish { saved: usize, unique: usize },
    /// Report the error and stop.
    Abort { error: PipelineError },
}

/// How the step that the driver was asked for went.
pub enum Event {
    /// The output root was removed.
    Cleared,
    /// There was no output root to remove.
    Absent,
    /// The card was found, under this name.
    Found { name: String },
    /// The image was downloaded: these are its bytes.
    Downloaded { png: Vec<u8> },
    /// The file was written.
    Written,
    /// The step failed.
    Failed,
}

/// An event as a value.
pub enum EventModel {
    Cleared,
    Absent,
    Found { name: Seq<char> },
    Downloaded { png: Seq<u8> },
    Written,
    Failed,
}

impl View for Event {
    type V = EventModel;

    open spec fn view(&self) -> EventModel {
        match *self {
            Event::Cleared => EventModel::Cleared,
            Event::Absent => EventModel::Absent,
            Event::Found { name } => EventModel::Found { name: name@ },
            Event::Downloaded { png } => EventModel::Downloaded { png: png@ },
            Event::Written => EventModel::Written,
            Event::Failed => EventModel::Failed,
        }
    }
}

/// A run as a value.
pub struct RunModel {
    /// Where the run stands.
    pub phase: Phase,
    /// The deck list.
    pub entries: Seq<EntryModel>,
    /// The position of the current entry.
    pub entry: nat,
    /// The copies of the current entry that are still to be written.
    pub left: nat,
    /// The global copy index: the number of files written so far.
    pub index: nat,
    /// The bytes of the file that is being written.
    pub image: Seq<u8>,
    /// Why the run failed, if it did.
    pub error: Option<PipelineError>,
}

impl RunModel {
    /// The run is in a state that a run can reach: the global copy index
    /// is the number of copies that the entries before the current one ask
    /// for, and of those of the current one that are written; the card back
    /// counts once it is written.
    pub open spec fn wf(self) -> bool {
        &&& forall|i: int| 0 <= i < self.entries.len() ==> (#[trigger] self.entries[i]).count >= 1
        &&& copies(self.entries) + 1 <= usize::MAX
        &&& self.entries.len() <= usize::MAX
        &&& self.index <= copies(self.entries) + 1
        &&& (self.phase == Phase::Aborted <==> self.error is Some)
        &&& match self.phase {
            Phase::Clearing => self.entry == 0 && self.left == 0 && self.index == 0,
            Phase::Lookup | Phase::Download => self.entry < self.entries.len() && self.left == 0
                && self.index == copies(self.entries.take(self.entry as int)),
            Phase::Writing => self.entry < self.entries.len() && 1 <= self.left
                <= self.entries[self.entry as int].count && self.index + self.left == copies(
                self.entries.take(self.entry as int),
            ) + self.entries[self.entry as int].count,
            Phase::Backing => self.entry == self.entries.len() && self.left == 0 && self.index
                == copies(self.entries),
            Phase::Finished => self.entry == self.entries.len() && self.left == 0 && self.index
                == copies(self.entries) + 1,
            Phase::Aborted => true,
        }
    }

    /// The run with the error that ends it.
    pub open spec fn aborted(self, error: PipelineError) -> RunModel {
        RunModel { phase: Phase::Aborted, error: Some(error), ..self }
    }

    /// The run as it turns to the entry at `position`, or to the card back
    /// where the list has no such entry.
    pub open spec fn turned_to(self, position: nat) -> RunModel {
        if position < self.entries.len() {
            RunModel { phase: Phase::Lookup, entry: position, left: 0, ..self }
        } else {
            match back_png() {
                Ok(bytes) => RunModel {
                    phase: Phase::Backing,
                    entry: position,
                    left: 0,
                    image: bytes,
                    ..self
                },
                Err(error) => self.aborted(error),
            }
        }
    }

    /// The step that the driver is asked for.
    pub open spec fn pending(self) -> Action {
        match self.phase {
            Phase::Clearing => Action::ClearOutput,
            Phase::Lookup => Action::LookUpCard { entry: self.entry as usize },
            Phase::Download => Action::DownloadImage { entry: self.entry as usize },
            Phase::Writing => Action::WriteCopy {
                page: page_of(self.index, DECK_SIZE as nat) as usize,
                slot: slot_of(self.index, DECK_SIZE as nat) as usize,
            },
            Phase::Backing => Action::WriteBack,
            Phase::Finished => Action::Finish {
                saved: self.index as usize,
                unique: self.entries.len() as usize,
            },
            Phase::Aborted => Action::Abort { error: self.error->Some_0 },
        }
    }

    /// The run after the driver has reported `event` for the pending step.
    /// A run that is finished or aborted stays as it is. Any event but the
    /// one that tells of the pending step's success counts as its failure.
    pub open spec fn after(self, event: EventModel) -> RunModel {
        match self.phase {
            Phase::Finished | Phase::Aborted => self,
            Phase::Clearing => match event {
                EventModel::Cleared | EventModel::Absent => self.turned_to(0),
                _ => self.aborted(PipelineError::Io { stage: IoStage::Cleanup }),
            },
            Phase::Lookup => match event {
                EventModel::Found { name } => if name == self.entries[self.entry as int].name {
                    RunModel { phase: Phase::Download, ..self }
                } else {
                    self.aborted(PipelineError::LookupMismatch { entry: self.entry as usize })
                },
                _ => self.aborted(PipelineError::Io { stage: IoStage::Fetch }),
            },
            Phase::Download => match event {
                EventModel::Downloaded { png } => match bordered_png(png) {
                    Ok(bytes) => RunModel {
                        phase: Phase::Writing,
                        left: self.entries[self.entry as int].count,
                        image: bytes,
                        ..self
                    },
                    Err(error) => self.aborted(error),
                },
                _ => self.aborted(PipelineError::Io { stage: IoStage::Fetch }),
            },
            Phase::Writing => match event {
                EventModel::Written => {
                    let written = RunModel {
                        index: self.index + 1,
                        left: (self.left - 1) as nat,
                        ..self
                    };
                    if written.left > 0 {
                        written
                    } else {
                        written.turned_to(self.entry + 1)
                    }
                },
                _ => self.aborted(PipelineError::Io { stage: IoStage::Write }),
            },
            Phase::Backing => match event {
                EventModel::Written => RunModel {
                    phase: Phase::Finished,
                    index: self.index + 1,
                    ..self
                },
                _ => self.aborted(PipelineError::Io { stage: IoStage::Write }),
            },
        }
    }

    /// The run after `n` more files were written one after the other.
    pub open spec fn after_writes(self, n: nat) -> RunModel
        decreases n,
    {
        if n == 0 {
            self
        } else {
            self.after_writes((n - 1) as nat).after(EventModel::Written)
        }
    }
}

/// The run for a deck list, before its first step.
pub open spec fn initial(entries: Seq<EntryModel>) -> RunModel {
    RunModel {
        phase: Phase::Clearing,
        entries,
        entry: 0,
        left: 0,
        index: 0,
        image: Seq::empty(),
        error: None,
    }
}

/// The copies that the entries up to and with the one at `position` ask
/// for are those of the entries before it and its own.
pub proof fn lemma_copies_step(entries: Seq<EntryModel>, position: int)
    requires
        0 <= position < entries.len(),
    ensures
        copies(entries.take(position + 1)) == copies(entries.take(position))
            + entries[position].count,
        copies(entries.take(position + 1)) <= copies(entries),
{
    assert(entries.take(position + 1).drop_last() =~= entries.take(position));
    lemma_copies_prefix(entries, position + 1);
}

/// Whatever the driver reports, a run stays in a state that a run can reach.
pub proof fn lemma_after_wf(run: RunModel, event: EventModel)
    requires
        run.wf(),
    ensures
        run.after(event).wf(),
{
    let n = run.entries.len() as int;
    assert(run.entries.take(0) =~= Seq::<EntryModel>::empty());
    assert(run.entries.take(n) =~= run.entries);
    if run.entry < n {
        lemma_copies_step(run.entries, run.entry as int);
    }
}

/// A run that is finished or aborted does nothing more: whatever is
/// reported to it, it stays as it is and asks for the same last step.
pub proof fn lemma_ended_run_stays(run: RunModel, event: EventModel)
    requires
        run.phase == Phase::Finished || run.phase == Phase::Aborted,
    ensures
        run.after(event) == run,
        run.after(event).pending() == run.pending(),
{
}

/// A failure aborts the run at once: after any report but that of the
/// pending step's success the run is aborted, and no file is written after it.
pub proof fn lemma_failure_aborts(run: RunModel)
    requires
        run.phase != Phase::Finished,
    ensures
        run.after(EventModel::Failed).phase == Phase::Aborted,
        run.after(EventModel::Failed).pending() is Abort,
        run.after(EventModel::Failed).index == run.index,
{
}

/// The copies of one entry: a run that has `run.left` copies of the current
/// entry to write asks for exactly that many files, at consecutive global
/// indices and with the same bytes, and then turns to the next entry. Here
/// the state after `n` of them, for every `n` up to `run.left`.
pub proof fn lemma_fan_out(run: RunModel, n: nat)
    requires
        run.wf(),
        run.phase == Phase::Writing,
        n <= run.left,
    ensures
        run.after_writes(n).wf(),
        run.after_writes(n).index == run.index + n,
        n < run.left ==> run.after_writes(n) == (RunModel {
            index: run.index + n,
            left: (run.left - n) as nat,
            ..run
        }),
        n < run.left ==> run.after_writes(n).pending() == (Action::WriteCopy {
            page: page_of(run.index + n, DECK_SIZE as nat) as usize,
            slot: slot_of(run.index + n, DECK_SIZE as nat) as usize,
        }),
        n == run.left ==> run.after_writes(n) == (RunModel {
            index: run.index + n,
            left: 0,
            ..run
        }).turned_to(run.entry + 1),
        n == run.left ==> !(run.after_writes(n).pending() is WriteCopy),
    decreases n,
{
    if n > 0 {
        lemma_fan_out(run, (n - 1) as nat);
        lemma_after_wf(run.after_writes((n - 1) as nat), EventModel::Written);
    }
}

/// The copies of the entry whose image has just been downloaded: where the
/// bytes `png` give the bordered image `bytes`, the run asks for as many
/// files as the entry has copies, at consecutive global indices from the one
/// it had reached, each with `bytes`, and for no further copy after them.
pub proof fn lemma_entry_fan_out(run: RunModel, png: Seq<u8>, bytes: Seq<u8>, n: nat)
    requires
        run.wf(),
        run.phase == Phase::Download,
        bordered_png(png) == Ok::<Seq<u8>, PipelineError>(bytes),
        n <= run.entries[run.entry as int].count,
    ensures
        n < run.entries[run.entry as int].count ==> {
            let then = run.after(EventModel::Downloaded { png }).after_writes(n);
            &&& then.phase == Phase::Writing
            &&& then.entry == run.entry
            &&& then.index == run.index + n
            &&& then.image == bytes
            &&& then.pending() == (Action::WriteCopy {
                page: page_of(run.index + n, DECK_SIZE as nat) as usize,
                slot: slot_of(run.index + n, DECK_SIZE as nat) as usize,
            })
        },
        n == run.entries[run.entry as int].count ==> {
            let then = run.after(EventModel::Downloaded { png }).after_writes(n);
            &&& then.index == run.index + n
            &&& !(then.pending() is WriteCopy)
        },
{
    let loaded = run.after(EventModel::Downloaded { png });
    lemma_after_wf(run, EventModel::Downloaded { png });
    lemma_fan_out(loaded, n);
}

/// A run begins by clearing the output root, before any file is written,
/// whatever an earlier run has left there.
pub proof fn lemma_run_begins_by_clearing(entries: Seq<EntryModel>)
    ensures
        initial(entries).pending() == Action::ClearOutput,
        initial(entries).index == 0,
        initial(entries).after(EventModel::Failed).pending() == (Action::Abort {
            error: PipelineError::Io { stage: IoStage::Cleanup },
        }),
        initial(entries).after(EventModel::Cleared) == initial(entries).after(EventModel::Absent),
{
}

/// A finished run has written one file for every copy that the deck list
/// asks for and one for the card back, and reports that number.
pub proof fn lemma_finished_total(run: RunModel)
    requires
        run.wf(),
        run.phase == Phase::Finished,
    ensures
        run.index == copies(run.entries) + 1,
        run.pending() == (Action::Finish {
            saved: (copies(run.entries) + 1) as usize,
            unique: run.entries.len() as usize,
        }),
{
}

/// A run: the deck list, the global copy index and the step that is pending.
pub struct Run {
    phase: Phase,
    entries: Vec<DeckEntry>,
    entry: usize,
    left: usize,
    index: usize,
    image: Vec<u8>,
    error: Option<PipelineError>,
}

impl View for Run {
    type V = RunModel;

    closed spec fn view(&self) -> RunModel {
        RunModel {
            phase: self.phase,
            entries: models(self.entries@),
            entry: self.entry as nat,
            left: self.left as nat,
            index: self.index as nat,
            image: self.image@,
            error: self.error,
        }
    }
}

impl Run {
    #[verifier::type_invariant]
    spec fn inv(self) -> bool {
        self@.wf()
    }

    /// Begins a run for a deck list. `None` where the number of files to
    /// write, the card back among them, does not fit the machine word.
    pub fn start(entries: Vec<DeckEntry>) -> (run: Option<Run>)
        ensures
            run is Some <==> copies(models(entries@)) + 1 <= usize::MAX,
            run matches Some(r) ==> r@ == initial(models(entries@)) && r@.wf(),
    {
        let fits = match total_copies(&entries) {
            None => false,
            Some(total) => total < usize::MAX,
        };
        if !fits {
            return None;
        }
        let mut i: usize = 0;
        while i < entries.len()
            invariant
                i <= entries.len(),
                forall|k: int| 0 <= k < i ==> (#[trigger] models(entries@)[k]).count >= 1,
            decreases entries.len() - i,
        {
            entries[i].count();
            i = i + 1;
        }
        Some(
            Run {
                phase: Phase::Clearing,
                entries,
                entry: 0,
                left: 0,
                index: 0,
                image: Vec::new(),
                error: None,
            },
        )
    }

    /// Where the run stands.
    pub fn phase(&self) -> (phase: Phase)
        ensures
            phase == self@.phase,
            self@.wf(),
    {
        proof {
            use_type_invariant(self);
        }
        self.phase
    }

    /// The global copy index: the number of files written so far.
    pub fn global_index(&self) -> (index: usize)
        ensures
            index == self@.index,
    {
        self.index
    }

    /// The deck list.
    pub fn entries(&self) -> (entries: &Vec<DeckEntry>)
        ensures
            models(entries@) == self@.entries,
    {
        &self.entries
    }

    /// The bytes of the file to write, while a copy or the card back is pending.
    pub fn image(&self) -> (bytes: &Vec<u8>)
        ensures
            bytes@ == self@.image,
    {
        &self.image
    }

    /// The step that the driver is asked for.
    pub fn pending(&self) -> (action: Action)
        ensures
            action == self@.pending(),
    {
        proof {
            use_type_invariant(self);
        }
        match self.phase {
            Phase::Clearing => Action::ClearOutput,
            Phase::Lookup => Action::LookUpCard { entry: self.entry },
            Phase::Download => Action::DownloadImage { entry: self.entry },
            Phase::Writing => {
                let at = locate(self.index);
                Action::WriteCopy { page: at.page, slot: at.slot }
            },
            Phase::Backing => Action::WriteBack,
            Phase::Finished => Action::Finish { saved: self.index, unique: self.entries.len() },
            Phase::Aborted => match self.error {
                Some(error) => Action::Abort { error },
                None => Action::ClearOutput,
            },
        }
    }

    /// The run with the error that ends it.
    fn abort(self, error: PipelineError) -> (next: Run)
        ensures
            next@ == self@.aborted(error),
    {
        proof {
            use_type_invariant(&self);
        }
        Run { phase: Phase::Aborted, error: Some(error), ..self }
    }

    /// The run as it turns to the entry at `position`, or to the card back,
    /// with `index` files written.
    fn turn_to(self, position: usize, index: usize) -> (next: Run)
        requires
            position <= self@.entries.len(),
            index == copies(self@.entries.take(position as int)),
            self@.error is None,
        ensures
            next@ == (RunModel { index: index as nat, left: 0, ..self@ }).turned_to(
                position as nat,
            ),
    {
        proof {
            use_type_invariant(&self);
            assert(self@.entries.take(self@.entries.len() as int) =~= self@.entries);
            lemma_copies_prefix(self@.entries, position as int);
        }
        if position < self.entries.len() {
            Run { phase: Phase::Lookup, entry: position, left: 0, index, ..self }
        } else {
            match encode_back() {
                Ok(bytes) => Run {
                    phase: Phase::Backing,
                    entry: position,
                    left: 0,
                    index,
                    image: bytes,
                    ..self
                },
                Err(error) => Run {
                    phase: Phase::Aborted,
                    left: 0,
                    index,
                    error: Some(error),
                    ..self
                },
            }
        }
    }

    /// Takes the driver's report on the pending step and gives the next step.
    pub fn step(self, event: Event) -> (next: (Run, Action))
        ensures
            next.0@ == self@.after(event@),
            next.1 == next.0@.pending(),
            next.0@.wf(),
    {
        proof {
            use_type_invariant(&self);
            lemma_after_wf(self@, event@);
        }
        let run = match self.phase {
            Phase::Finished | Phase::Aborted => self,
            Phase::Clearing => match event {
                Event::Cleared | Event::Absent => {
                    proof {
                        assert(self@.entries.take(0) =~= Seq::<EntryModel>::empty());
                    }
                    self.turn_to(0, 0)
                },
                _ => self.abort(PipelineError::Io { stage: IoStage::Cleanup }),
            },
            Phase::Lookup => match event {
                Event::Found { name } => {
                    if name == *self.entries[self.entry].name() {
                        Run { phase: Phase::Download, ..self }
                    } else {
                        let entry = self.entry;
                        self.abort(PipelineError::LookupMismatch { entry })
                    }
                },
                _ => self.abort(PipelineError::Io { stage: IoStage::Fetch }),
            },
            Phase::Download => match event {
                Event::Downloaded { png } => match border_card(png.as_slice()) {
                    Ok(bytes) => {
                        let left = self.entries[self.entry].count();
                        Run { phase: Phase::Writing, left, image: bytes, ..self }
                    },
                    Err(error) => self.abort(error),
                },
                _ => self.abort(PipelineError::Io { stage: IoStage::Fetch }),
            },
            Phase::Writing => match event {
                Event::Written => {
                    proof {
                        lemma_copies_step(self@.entries, self.entry as int);
                    }
                    let index = self.index + 1;
                    if self.left > 1 {
                        Run { index, left: self.left - 1, ..self }
                    } else {
                        let position = self.entry + 1;
                        self.turn_to(position, index)
                    }
                },
                _ => self.abort(PipelineError::Io { stage: IoStage::Write }),
            },
            Phase::Backing => match event {
                Event::Written => Run { phase: Phase::Finished, index: self.index + 1, ..self },
                _ => self.abort(PipelineError::Io { stage: IoStage::Write }),
            },
        };
        let action = run.pending();
        (run, action)
    }
}

} // verus!
