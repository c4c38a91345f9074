//! The interface between the machine and the application that hosts it:
//! run settings, the platform contract, and the keyboard layout.

use vstd::prelude::*;

use crate::chip8::Chip8;

verus! {

/// Settings the embedding application hands a platform.
pub struct Settings {
    /// Whether to dump machine state while running.
    pub debug: bool,
    /// Stop after this many frames, or run until quit when absent.
    pub cycles: Option<u32>,
    /// The target frame rate of the platform's loop.
    pub fps: u64,
}

/// What a host platform provides: it owns a machine, loads its program,
/// feeds it input, drives its ticks and renders its framebuffer. The
/// machine imposes no pacing; the platform decides the tick rate.
pub trait Platform: Sized {
    /// Wraps a machine and the settings it will run under.
    fn new(chip8: Chip8, settings: Settings) -> Self;

    /// Hands the machine a program to load.
    fn load(&mut self, rom: Vec<u8>);

    /// Prepares the platform's input and output channels.
    fn init(&mut self);

    /// Polls input and drives one tick.
    fn update(&mut self);

    /// Draws the machine's framebuffer.
    fn render(&mut self);

    /// Runs the frame loop until stopped.
    fn run(&mut self);

    /// Releases what `init` acquired.
    fn cleanup(&mut self);
}

/// The platforms an application can pick.
#[derive(Clone, Debug)]
pub enum PlatformType {
    /// A terminal, drawing the framebuffer as text.
    Terminal,
}

impl PlatformType {
    /// The platform's name as written on a command line.
    pub fn label(&self) -> (r: &'static str)
        ensures
            self is Terminal ==> r@ == "terminal"@,
    {
        match self {
            PlatformType::Terminal => "terminal",
        }
    }
}

/// The conventional QWERTY layout of the 4x4 CHIP-8 keypad: the block of
/// keys 1-4, Q-R, A-F, Z-V stands for the hex keys, column by column, with
/// X as key 0.
pub open spec fn key_of_char(c: char) -> Option<usize> {
    match c {
        '1' => Some(0x1),
        '2' => Some(0x2),
        '3' => Some(0x3),
        '4' => Some(0xC),
        'q' => Some(0x4),
        'w' => Some(0x5),
        'e' => Some(0x6),
        'r' => Some(0xD),
        'a' => Some(0x7),
        's' => Some(0x8),
        'd' => Some(0x9),
        'f' => Some(0xE),
        'z' => Some(0xA),
        'x' => Some(0x0),
        'c' => Some(0xB),
        'v' => Some(0xF),
        _ => None,
    }
}

/// Maps a typed character to the keypad key it stands for, or to nothing
/// for a character outside the layout. A mapped key is always in 0-15.
pub fn ch_to_key(c: char) -> (r: Option<usize>)
    ensures
        r == key_of_char(c),
        r matches Some(k) ==> k < 16,
{
    match c {
        '1' => Some(0x1),
        '2' => Some(0x2),
        '3' => Some(0x3),
        '4' => Some(0xC),
        'q' => Some(0x4),
        'w' => Some(0x5),
        'e' => Some(0x6),
        'r' => Some(0xD),
        'a' => Some(0x7),
        's' => Some(0x8),
        'd' => Some(0x9),
        'f' => Some(0xE),
        'z' => Some(0xA),
        'x' => Some(0x0),
        'c' => Some(0xB),
        'v' => Some(0xF),
        _ => None,
    }
}

} // verus!
