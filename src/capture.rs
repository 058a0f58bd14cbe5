use vstd::prelude::*;

verus! {

/// Where a walk of one controller directory stands.
#[derive(Clone, Copy, Debug, PartialEq, Eq, Structural)]
pub enum Phase {
    /// The directory has not been opened yet.
    Opening,
    /// Waiting for the next directory entry.
    Listing,
    /// Waiting for the content of the current entry.
    Reading,
    /// The capture group is complete.
    Done,
}

/// What the caller must do next on the filesystem.
#[derive(Clone, Copy, Debug, PartialEq, Eq, Structural)]
pub enum Request {
    /// Open the controller directory for enumeration.
    OpenDirectory,
    /// Fetch the next entry of the directory.
    NextEntry,
    /// Read the whole content of the current entry.
    ReadEntry,
    /// Nothing more to do: hand the capture to the snapshot.
    Finish,
}

/// The outcome of one filesystem operation, reported by the caller.
#[derive(Debug)]
pub enum Event {
    /// The directory was opened.
    Opened,
    /// The directory is missing, not a directory, or could not be opened.
    OpenFailed,
    /// The enumeration produced one more entry.
    Entry,
    /// The enumeration is exhausted.
    NoMoreEntries,
    /// The enumeration failed part way.
    ListFailed,
    /// The current entry was read whole.
    Read(Vec<u8>),
    /// The current entry could not be read.
    ReadFailed,
}

/// The mathematical value of an [`Event`].
pub enum Outcome {
    Opened,
    OpenFailed,
    Entry,
    NoMoreEntries,
    ListFailed,
    Read(Seq<u8>),
    ReadFailed,
}

impl View for Event {
    type V = Outcome;

    open spec fn view(&self) -> Outcome {
        match self {
            Event::Opened => Outcome::Opened,
            Event::OpenFailed => Outcome::OpenFailed,
            Event::Entry => Outcome::Entry,
            Event::NoMoreEntries => Outcome::NoMoreEntries,
            Event::ListFailed => Outcome::ListFailed,
            Event::Read(b) => Outcome::Read(b@),
            Event::ReadFailed => Outcome::ReadFailed,
        }
    }
}

/// The mathematical value of a [`Capture`]: its phase and the blobs
/// captured so far, in the order they were read.
pub struct CaptureView {
    pub phase: Phase,
    pub blobs: Seq<Seq<u8>>,
}

/// A capture group being built from the walk of one controller directory.
pub struct Capture {
    phase: Phase,
    blobs: Vec<Vec<u8>>,
}

/// The contents of captured blobs, in order.
pub open spec fn blobs_of(v: Seq<Vec<u8>>) -> Seq<Seq<u8>> {
    v.map_values(|b: Vec<u8>| b@)
}

impl View for Capture {
    type V = CaptureView;

    closed spec fn view(&self) -> CaptureView {
        CaptureView { phase: self.phase, blobs: blobs_of(self.blobs@) }
    }
}

/// The state in which every walk starts.
pub open spec fn start() -> CaptureView {
    CaptureView { phase: Phase::Opening, blobs: Seq::empty() }
}

/// One transition. Failures end the walk (directory) or skip the entry
/// (file); an outcome that does not answer the pending request changes
/// nothing.
pub open spec fn step_spec(v: CaptureView, e: Outcome) -> CaptureView {
    match (v.phase, e) {
        (Phase::Opening, Outcome::Opened) => CaptureView { phase: Phase::Listing, ..v },
        (Phase::Opening, Outcome::OpenFailed) => CaptureView { phase: Phase::Done, ..v },
        (Phase::Listing, Outcome::Entry) => CaptureView { phase: Phase::Reading, ..v },
        (Phase::Listing, Outcome::NoMoreEntries) => CaptureView { phase: Phase::Done, ..v },
        (Phase::Listing, Outcome::ListFailed) => CaptureView { phase: Phase::Done, ..v },
        (Phase::Reading, Outcome::Read(b)) => CaptureView {
            phase: Phase::Listing,
            blobs: v.blobs.push(b),
        },
        (Phase::Reading, Outcome::ReadFailed) => CaptureView { phase: Phase::Listing, ..v },
        _ => v,
    }
}

/// The request that answers a phase.
pub open spec fn request_of(p: Phase) -> Request {
    match p {
        Phase::Opening => Request::OpenDirectory,
        Phase::Listing => Request::NextEntry,
        Phase::Reading => Request::ReadEntry,
        Phase::Done => Request::Finish,
    }
}

impl Capture {
    /// A capture that has not touched the filesystem yet.
    pub fn new() -> (r: Capture)
        ensures
            r@ == start(),
    {
        let r = Capture { phase: Phase::Opening, blobs: Vec::new() };
        assert(r@.blobs =~= Seq::<Seq<u8>>::empty());
        r
    }

    /// What the caller must do next.
    pub fn request(&self) -> (r: Request)
        ensures
            r == request_of(self@.phase),
    {
        match self.phase {
            Phase::Opening => Request::OpenDirectory,
            Phase::Listing => Request::NextEntry,
            Phase::Reading => Request::ReadEntry,
            Phase::Done => Request::Finish,
        }
    }

    /// Whether the capture group is complete.
    pub fn is_done(&self) -> (r: bool)
        ensures
            r == (self@.phase == Phase::Done),
    {
        self.phase == Phase::Done
    }

    /// Feeds the outcome of the pending request and returns the next one.
    pub fn step(&mut self, event: Event) -> (r: Request)
        ensures
            final(self)@ == step_spec(old(self)@, event@),
            r == request_of(final(self)@.phase),
    {
        match (self.phase, event) {
            (Phase::Opening, Event::Opened) => {
                self.phase = Phase::Listing;
            },
            (Phase::Opening, Event::OpenFailed) => {
                self.phase = Phase::Done;
            },
            (Phase::Listing, Event::Entry) => {
                self.phase = Phase::Reading;
            },
            (Phase::Listing, Event::NoMoreEntries) => {
                self.phase = Phase::Done;
            },
            (Phase::Listing, Event::ListFailed) => {
                self.phase = Phase::Done;
            },
            (Phase::Reading, Event::Read(b)) => {
                let ghost before = blobs_of(self.blobs@);
                let ghost content = b@;
                self.blobs.push(b);
                self.phase = Phase::Listing;
                assert(blobs_of(self.blobs@) =~= before.push(content));
            },
            (Phase::Reading, Event::ReadFailed) => {
                self.phase = Phase::Listing;
            },
            _ => {},
        }
        self.request()
    }

    /// The blobs captured so far, in the order they were read.
    pub fn into_blobs(self) -> (r: Vec<Vec<u8>>)
        ensures
            blobs_of(r@) == self@.blobs,
    {
        self.blobs
    }
}

} // verus!
