//! The render engine: the per-frame command buffer, the rules by which
//! buffered commands change the canvas, and the reaction to window events.

use crate::command::{Color, Command};
use crate::framebuffer::{resized, solid, with_pixel, Framebuffer};
use crate::raster::{with_line, with_rect};
use vstd::prelude::*;

verus! {

/// What drawing commands act on: a pixel grid and the current colour.
pub struct Canvas {
    pub width: int,
    pub height: int,
    pub pixels: Seq<u32>,
    pub color: Color,
}

/// The canvas after one command.
pub open spec fn apply_one(c: Canvas, command: Command) -> Canvas {
    match command {
        Command::NewFrame => c,
        Command::Flush => Canvas { pixels: solid(c.pixels.len(), 0), ..c },
        Command::SetColor(color) => Canvas { color: color, ..c },
        Command::SetPixel { x, y, color } => Canvas {
            pixels: with_pixel(c.pixels, c.width, c.height, x as int, y as int, color.packed()),
            ..c
        },
        Command::DrawRect { x1, y1, x2, y2 } => Canvas {
            pixels: with_rect(
                c.pixels,
                c.width,
                x1 as int,
                y1 as int,
                x2 as int,
                y2 as int,
                c.color.packed(),
            ),
            ..c
        },
        Command::DrawLine { x1, y1, x2, y2 } => Canvas {
            pixels: with_line(
                c.pixels,
                c.width,
                x1 as int,
                y1 as int,
                x2 as int,
                y2 as int,
                c.color.packed(),
            ),
            ..c
        },
    }
}

/// The canvas after a batch of commands, applied first to last.
pub open spec fn apply_all(c: Canvas, commands: Seq<Command>) -> Canvas
    decreases commands.len(),
{
    if commands.len() == 0 {
        c
    } else {
        apply_one(apply_all(c, commands.drop_last()), commands.last())
    }
}

/// The per-frame buffer with which the next frame starts, once `boundary` has
/// ended the last one: a flush leaves a flush marker in front, so that the
/// next frame starts from a cleared canvas; a new frame leaves nothing, so
/// that the canvas persists. The boundary command itself follows.
pub open spec fn next_queue(boundary: Command) -> Seq<Command> {
    if boundary == Command::Flush {
        seq![Command::Flush, Command::Flush]
    } else {
        seq![boundary]
    }
}

/// What the engine holds between two frames: the canvas as the last frame
/// left it, and the commands buffered for the next.
pub struct Buffered {
    pub canvas: Canvas,
    pub queue: Seq<Command>,
}

/// The canvas and the buffer after one command was received. A command that
/// ends a frame has the buffer applied and started anew; any other command
/// joins the buffer and leaves the canvas as it is.
pub open spec fn after_receive(s: Buffered, command: Command) -> Buffered {
    if command.is_boundary() {
        Buffered { canvas: apply_all(s.canvas, s.queue), queue: next_queue(command) }
    } else {
        Buffered { canvas: s.canvas, queue: s.queue.push(command) }
    }
}

/// The canvas and the buffer after a run of commands was received, first to
/// last.
pub open spec fn after_receive_all(s: Buffered, commands: Seq<Command>) -> Buffered
    decreases commands.len(),
{
    if commands.len() == 0 {
        s
    } else {
        after_receive(after_receive_all(s, commands.drop_last()), commands.last())
    }
}

/// Where the engine stands in its life.
#[derive(Clone, Copy, Debug, PartialEq, Eq, Structural)]
pub enum Phase {
    /// No window yet.
    Uninitialized,
    /// The window exists and the canvas has its extent; no event was handled yet.
    WindowCreated,
    /// Window events are being handled.
    Running,
    /// The window was closed; nothing more happens.
    Closed,
}

/// What the window system reports.
#[derive(Clone, Copy, Debug, PartialEq, Eq, Structural)]
pub enum Event {
    /// The window now has this extent, in pixels.
    Resized { width: usize, height: usize },
    /// The user asked to close the window.
    CloseRequested,
    /// The window asks for its content.
    RedrawRequested,
    /// Anything else, such as keyboard input.
    Other,
}

/// What the owner of the window is to do after an event.
#[derive(Clone, Copy, Debug, PartialEq, Eq, Structural)]
pub enum Action {
    /// Nothing.
    Nothing,
    /// Publish the new extent, resize the presentable surface to it and
    /// present what the surface holds.
    ResizeSurface { width: usize, height: usize },
    /// Copy the canvas into the presentable surface pixel for pixel, present
    /// it and ask for the next redraw.
    Present,
    /// Release the window and stop the event loop.
    Exit,
}

/// The phase after an event.
pub open spec fn phase_after(phase: Phase, event: Event) -> Phase {
    match phase {
        Phase::Uninitialized => Phase::Uninitialized,
        Phase::Closed => Phase::Closed,
        _ => if event == Event::CloseRequested {
            Phase::Closed
        } else {
            Phase::Running
        },
    }
}

/// What the owner of the window is to do after an event that arrives in
/// `phase`.
pub open spec fn action_for(phase: Phase, event: Event) -> Action {
    match phase {
        Phase::Uninitialized => Action::Nothing,
        Phase::Closed => Action::Nothing,
        _ => match event {
            Event::Resized { width, height } => Action::ResizeSurface { width, height },
            Event::CloseRequested => Action::Exit,
            Event::RedrawRequested => Action::Present,
            Event::Other => Action::Nothing,
        },
    }
}

/// The state that the render thread owns: the canvas, the current colour and
/// the commands buffered for the frame in progress.
pub struct Engine {
    pub phase: Phase,
    pub frame: Framebuffer,
    pub color: Color,
    pub queue: Vec<Command>,
}

impl Engine {
    /// The frame holds as many pixels as its extent says.
    pub open spec fn wf(&self) -> bool {
        self.frame.wf()
    }

    /// The canvas that commands act on.
    pub open spec fn canvas(&self) -> Canvas {
        Canvas {
            width: self.frame.width as int,
            height: self.frame.height as int,
            pixels: self.frame.pixels@,
            color: self.color,
        }
    }

    /// The canvas together with the commands buffered for the next frame.
    pub open spec fn buffered(&self) -> Buffered {
        Buffered { canvas: self.canvas(), queue: self.queue@ }
    }

    /// An engine without a window: an empty canvas, black as the current
    /// colour, nothing buffered.
    pub fn new() -> (engine: Self)
        ensures
            engine.wf(),
            engine.phase == Phase::Uninitialized,
            engine.frame.width == 0,
            engine.frame.height == 0,
            engine.frame.pixels@ == Seq::<u32>::empty(),
            engine.color == (Color { r: 0, g: 0, b: 0 }),
            engine.queue@ == Seq::<Command>::empty(),
    {
        let frame = Framebuffer::new(0, 0);
        assert(frame.pixels@ =~= Seq::<u32>::empty());
        Engine { phase: Phase::Uninitialized, frame, color: Color::black(), queue: Vec::new() }
    }

    /// Whether the platform's resumed signal finds the engine without a
    /// window, so that one has to be created.
    pub fn needs_window(&self) -> (needed: bool)
        ensures
            needed == (self.phase == Phase::Uninitialized),
    {
        match self.phase {
            Phase::Uninitialized => true,
            _ => false,
        }
    }

    /// Takes note of the window created on the platform's resumed signal:
    /// the canvas gets the window's extent. Only the first call has an effect.
    pub fn resumed(&mut self, width: usize, height: usize)
        requires
            old(self).wf(),
            width * height <= usize::MAX,
        ensures
            final(self).wf(),
            final(self).color == old(self).color,
            final(self).queue@ == old(self).queue@,
            old(self).phase == Phase::Uninitialized ==> {
                &&& final(self).phase == Phase::WindowCreated
                &&& final(self).frame.width == width
                &&& final(self).frame.height == height
                &&& final(self).frame.pixels@ == resized(
                    old(self).frame.pixels@,
                    (width * height) as nat,
                )
            },
            old(self).phase != Phase::Uninitialized ==> {
                &&& final(self).phase == old(self).phase
                &&& final(self).frame == old(self).frame
            },
    {
        if self.needs_window() {
            self.frame.resize(width, height);
            self.phase = Phase::WindowCreated;
        }
    }

    /// Applies one command to the canvas.
    pub fn apply(&mut self, command: Command)
        requires
            old(self).wf(),
        ensures
            final(self).wf(),
            final(self).canvas() == apply_one(old(self).canvas(), command),
            final(self).phase == old(self).phase,
            final(self).queue@ == old(self).queue@,
    {
        match command {
            Command::NewFrame => {},
            Command::Flush => {
                self.frame.fill(0);
            },
            Command::SetColor(color) => {
                self.color = color;
            },
            Command::SetPixel { x, y, color } => {
                self.frame.plot(x, y, color.pack());
            },
            Command::DrawRect { x1, y1, x2, y2 } => {
                let packed: u32 = self.color.pack();
                self.frame.fill_rect(x1, y1, x2, y2, packed);
            },
            Command::DrawLine { x1, y1, x2, y2 } => {
                let packed: u32 = self.color.pack();
                self.frame.draw_line(x1, y1, x2, y2, packed);
            },
        }
    }

    /// Applies the buffered commands to the canvas, in the order in which
    /// they were received. The buffer itself is left as it is.
    pub fn apply_queue(&mut self)
        requires
            old(self).wf(),
        ensures
            final(self).wf(),
            final(self).canvas() == apply_all(old(self).canvas(), old(self).queue@),
            final(self).phase == old(self).phase,
            final(self).queue@ == old(self).queue@,
    {
        let n: usize = self.queue.len();
        let mut i: usize = 0;
        while i < n
            invariant
                i <= n,
                n == self.queue@.len(),
                self.wf(),
                self.phase == old(self).phase,
                self.queue@ == old(self).queue@,
                self.canvas() == apply_all(old(self).canvas(), old(self).queue@.take(i as int)),
            decreases n - i,
        {
            let command: Command = self.queue[i];
            proof {
                let next = old(self).queue@.take(i + 1);
                assert(next.drop_last() =~= old(self).queue@.take(i as int));
                assert(next.last() == command);
            }
            self.apply(command);
            i = i + 1;
        }
        assert(old(self).queue@.take(n as int) =~= old(self).queue@);
    }

    /// Takes one command from the channel. A command that ends a frame has the
    /// buffered commands applied and the buffer started anew; every command,
    /// that one too, is then buffered for the frame to come. Returns whether a
    /// frame ended: the caller then publishes the time since the last frame
    /// and asks for a redraw.
    pub fn receive(&mut self, command: Command) -> (boundary: bool)
        requires
            old(self).wf(),
        ensures
            final(self).wf(),
            boundary == command.is_boundary(),
            final(self).phase == old(self).phase,
            final(self).buffered() == after_receive(old(self).buffered(), command),
    {
        let boundary: bool = command.is_frame_boundary();
        if boundary {
            self.apply_queue();
            self.queue.clear();
            match command {
                Command::Flush => {
                    self.queue.push(Command::Flush);
                },
                _ => {},
            }
        }
        self.queue.push(command);
        proof {
            if boundary {
                assert(self.queue@ =~= next_queue(command));
            }
        }
        boundary
    }

    /// Reacts to one window event and says what the owner of the window is to
    /// do. A resize reflows the canvas to the new extent; a close request ends
    /// the engine's life. Before a window exists and after it was closed,
    /// events change nothing.
    pub fn window_event(&mut self, event: Event) -> (action: Action)
        requires
            old(self).wf(),
            event matches Event::Resized { width, height } ==> width * height <= usize::MAX,
        ensures
            final(self).wf(),
            action == action_for(old(self).phase, event),
            final(self).phase == phase_after(old(self).phase, event),
            final(self).color == old(self).color,
            final(self).queue@ == old(self).queue@,
            action matches Action::ResizeSurface { width, height } ==> {
                &&& final(self).frame.width == width
                &&& final(self).frame.height == height
                &&& final(self).frame.pixels@ == resized(
                    old(self).frame.pixels@,
                    (width * height) as nat,
                )
            },
            !(action is ResizeSurface) ==> final(self).frame == old(self).frame,
    {
        match self.phase {
            Phase::Uninitialized => {
                return Action::Nothing;
            },
            Phase::Closed => {
                return Action::Nothing;
            },
            _ => {},
        }
        match event {
            Event::Resized { width, height } => {
                self.frame.resize(width, height);
                self.phase = Phase::Running;
                Action::ResizeSurface { width, height }
            },
            Event::CloseRequested => {
                self.phase = Phase::Closed;
                Action::Exit
            },
            Event::RedrawRequested => {
                self.phase = Phase::Running;
                Action::Present
            },
            Event::Other => {
                self.phase = Phase::Running;
                Action::Nothing
            },
        }
    }

}

/// The extent of the engine's canvas, width first: what the render thread
/// publishes for readers on other threads.
pub fn get_screen_dimensions(engine: &Engine) -> (d: (usize, usize))
    ensures
        d == (engine.frame.width, engine.frame.height),
{
    (engine.frame.width, engine.frame.height)
}

} // verus!
