use vstd::prelude::*;
use crate::canvas::{
    Canvas, ChromaticBuffer, DrawError, PLANE_BYTES, canvas_planes, first_missing_glyph, glyphs_available,
    painted,
};
use crate::data::Data;
use crate::theme::{Theme, canvas_size};

verus! {

/// Where the panel is in its update cycle.
#[derive(Clone, Copy, Debug, PartialEq, Eq, Structural)]
pub enum Phase {
    /// Ready for the next reading.
    Idle,
    /// The wake command is on the bus.
    Waking,
    /// Waiting for the panel's busy signal to clear.
    WaitingIdle,
    /// Both planes are being sent to the panel's frame memory.
    TransferringFrame,
    /// The display command is on the bus.
    Displaying,
    /// The sleep command is on the bus.
    Sleeping,
}

/// A bus operation that the caller performs on the panel.
#[derive(Clone, Copy, Debug, PartialEq, Eq, Structural)]
pub enum Command {
    Wake,
    WaitUntilIdle,
    /// Send the black/white and the chromatic plane of the canvas.
    TransferFrame,
    /// Show the frame that was sent.
    Present,
    Sleep,
}

/// What the caller does next.
#[derive(Clone, Copy, Debug, PartialEq, Eq, Structural)]
pub enum Step {
    /// Perform the operation and report whether it succeeded.
    Issue(Command),
    /// The cycle is complete; the panel sleeps.
    Finished,
    /// A bus operation failed; the rest of the cycle was abandoned.
    BusFailed,
    /// Drawing on the canvas failed; nothing was sent to the panel.
    DrawFailed(DrawError),
}

/// The phase that follows a successful operation in `phase`.
pub open spec fn next_phase(phase: Phase) -> Phase {
    match phase {
        Phase::Idle => Phase::Waking,
        Phase::Waking => Phase::WaitingIdle,
        Phase::WaitingIdle => Phase::TransferringFrame,
        Phase::TransferringFrame => Phase::Displaying,
        Phase::Displaying => Phase::Sleeping,
        Phase::Sleeping => Phase::Idle,
    }
}

/// The bus operation performed while in `phase`.
pub open spec fn command_in(phase: Phase) -> Option<Command> {
    match phase {
        Phase::Idle => None,
        Phase::Waking => Some(Command::Wake),
        Phase::WaitingIdle => Some(Command::WaitUntilIdle),
        Phase::TransferringFrame => Some(Command::TransferFrame),
        Phase::Displaying => Some(Command::Present),
        Phase::Sleeping => Some(Command::Sleep),
    }
}

/// A panel session: the canvas, the theme that draws on it, and the phase
/// of the current update cycle.
pub struct Display<T: Theme> {
    canvas: Canvas,
    theme: T,
    phase: Phase,
    data: Data,
    /// The planes last sent to the panel.
    sent: Ghost<Seq<u8>>,
    /// The planes that the panel last showed.
    shown: Ghost<Seq<u8>>,
}

impl<T: Theme> Display<T> {
    pub closed spec fn phase_spec(&self) -> Phase {
        self.phase
    }

    pub closed spec fn reading(&self) -> Data {
        self.data
    }

    pub closed spec fn theme_spec(&self) -> T {
        self.theme
    }

    /// The bytes of both planes of the canvas.
    pub closed spec fn planes(&self) -> Seq<u8> {
        canvas_planes(self.canvas)
    }

    /// The planes last sent to the panel.
    pub closed spec fn sent_frame(&self) -> Seq<u8> {
        self.sent@
    }

    /// The planes that the panel shows, as far as this session made it show them.
    pub closed spec fn shown_frame(&self) -> Seq<u8> {
        self.shown@
    }

    /// A session over a canvas and a theme, ready for a reading.
    pub fn new(canvas: Canvas, theme: T) -> (r: Display<T>)
        requires
            canvas_planes(canvas).len() == 2 * PLANE_BYTES,
        ensures
            r.phase_spec() == Phase::Idle,
            r.planes() == canvas_planes(canvas),
            r.theme_spec() == theme,
    {
        Display {
            canvas,
            theme,
            phase: Phase::Idle,
            data: Data { co2: 0, temperature: 0, humidity: 0 },
            sent: Ghost(Seq::empty()),
            shown: Ghost(Seq::empty()),
        }
    }

    pub fn phase(&self) -> (r: Phase)
        ensures
            r == self.phase_spec(),
    {
        self.phase
    }

    /// Whether the theme can lay the reading out.
    pub fn accepts(&self, data: &Data) -> (r: bool)
        ensures
            r == self.theme_spec().accepts(*data),
    {
        self.theme.accepts_data(data)
    }

    /// Starts a cycle for a reading: the panel is to be woken first.
    pub fn begin(&mut self, data: Data) -> (r: Command)
        requires
            old(self).phase_spec() == Phase::Idle,
            old(self).theme_spec().accepts(data),
            old(self).planes().len() == 2 * PLANE_BYTES,
        ensures
            r == Command::Wake,
            final(self).phase_spec() == Phase::Waking,
            final(self).reading() == data,
            final(self).theme_spec() == old(self).theme_spec(),
            final(self).planes() == old(self).planes(),
            final(self).sent_frame() == old(self).sent_frame(),
            final(self).shown_frame() == old(self).shown_frame(),
    {
        self.data = data;
        self.phase = Phase::Waking;
        Command::Wake
    }

    /// Takes the outcome of the operation of the current phase and says
    /// what to do next. Once the panel is idle the theme draws the reading,
    /// and the planes are to be sent; any failure ends the cycle.
    pub fn advance(&mut self, succeeded: bool) -> (r: Step)
        requires
            old(self).phase_spec() != Phase::Idle,
            old(self).theme_spec().accepts(old(self).reading()),
            old(self).planes().len() == 2 * PLANE_BYTES,
        ensures
            final(self).reading() == old(self).reading(),
            final(self).planes().len() == 2 * PLANE_BYTES,
            final(self).theme_spec() == old(self).theme_spec(),
            final(self).sent_frame() == if succeeded && old(self).phase_spec() == Phase::TransferringFrame {
                old(self).planes()
            } else {
                old(self).sent_frame()
            },
            final(self).shown_frame() == if succeeded && old(self).phase_spec() == Phase::Displaying {
                old(self).sent_frame()
            } else {
                old(self).shown_frame()
            },
            !succeeded ==> r == Step::BusFailed && final(self).phase_spec() == Phase::Idle
                && final(self).planes() == old(self).planes(),
            succeeded && old(self).phase_spec() != Phase::WaitingIdle ==> {
                &&& final(self).phase_spec() == next_phase(old(self).phase_spec())
                &&& final(self).planes() == old(self).planes()
                &&& r == match command_in(next_phase(old(self).phase_spec())) {
                    Some(c) => Step::Issue(c),
                    None => Step::Finished,
                }
            },
            succeeded && old(self).phase_spec() == Phase::WaitingIdle ==> {
                let scene = old(self).theme_spec().scene(old(self).reading(), canvas_size());
                if glyphs_available(scene) {
                    &&& r == Step::Issue(Command::TransferFrame)
                    &&& final(self).phase_spec() == Phase::TransferringFrame
                    &&& final(self).planes() == painted(old(self).planes(), scene)
                } else {
                    &&& final(self).phase_spec() == Phase::Idle
                    &&& r matches Step::DrawFailed(DrawError::MissingGlyph(c)) && exists|i: int| {
                        &&& #[trigger] first_missing_glyph(scene, i)
                        &&& scene[i] matches crate::scene::Op::Glyph { glyph, .. } && glyph == c
                        &&& final(self).planes() == painted(old(self).planes(), scene.subrange(0, i))
                    }
                }
            },
    {
        if !succeeded {
            self.phase = Phase::Idle;
            return Step::BusFailed;
        }
        match self.phase {
            Phase::Waking => {
                self.phase = Phase::WaitingIdle;
                Step::Issue(Command::WaitUntilIdle)
            },
            Phase::WaitingIdle => {
                match self.theme.draw(&self.data, &mut self.canvas) {
                    Ok(()) => {
                        self.phase = Phase::TransferringFrame;
                        Step::Issue(Command::TransferFrame)
                    },
                    Err(e) => {
                        self.phase = Phase::Idle;
                        Step::DrawFailed(e)
                    },
                }
            },
            Phase::TransferringFrame => {
                self.sent = Ghost(canvas_planes(self.canvas));
                self.phase = Phase::Displaying;
                Step::Issue(Command::Present)
            },
            Phase::Displaying => {
                self.shown = Ghost(self.sent@);
                self.phase = Phase::Sleeping;
                Step::Issue(Command::Sleep)
            },
            _ => {
                self.phase = Phase::Idle;
                Step::Finished
            },
        }
    }

    /// The black/white plane, to be sent with `Command::TransferFrame`.
    pub fn bw_buffer(&self) -> (r: &[u8])
        requires
            self.planes().len() == 2 * PLANE_BYTES,
        ensures
            r@ == self.planes().subrange(0, PLANE_BYTES as int),
            r@.len() == PLANE_BYTES,
    {
        self.canvas.bw_buffer()
    }

    /// The chromatic plane, to be sent with `Command::TransferFrame`.
    pub fn chromatic_buffer(&self) -> (r: &[u8])
        requires
            self.planes().len() == 2 * PLANE_BYTES,
        ensures
            r@ == self.planes().subrange(PLANE_BYTES as int, 2 * PLANE_BYTES as int),
            r@.len() == PLANE_BYTES,
    {
        self.canvas.chromatic_buffer()
    }
}

} // verus!
