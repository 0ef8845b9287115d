//! The parameters of a match and how they are read from the command line.

use vstd::prelude::*;
use vstd::string::*;
use crate::text::{parse_unsigned, same_text, unsigned_of};

verus! {

/// The parameters of a match.
#[derive(Clone, Copy, Debug, PartialEq, Eq)]
pub struct Config {
    /// The snake's colour, as 24-bit RGB.
    pub colour: u32,
    /// Board width in cells.
    pub width: usize,
    /// Board height in cells.
    pub height: usize,
    /// Edge of a cell in pixels.
    pub scale: usize,
    /// Pause between two ticks, in milliseconds.
    pub speed: u64,
    /// Length that the snake grows to before it has eaten anything.
    pub length: usize,
}

/// Why no match can be set up.
#[derive(Clone, Copy, Debug, PartialEq, Eq, Structural)]
pub enum ConfigError {
    /// An option came without its value.
    Usage,
    /// The colour is no hexadecimal number of 32 bits.
    Colour,
    /// The width is no decimal number.
    Width,
    /// The height is no decimal number.
    Height,
    /// The scale is no decimal number.
    Scale,
    /// The tick interval is no decimal number.
    Speed,
    /// The starting length is no decimal number.
    Length,
    /// An argument is no option.
    UnknownArgument,
    /// The board is wider than the surface.
    TooWide,
    /// The board is taller than the surface.
    TooTall,
}

/// The parameter that an option sets.
#[derive(Clone, Copy, Debug, PartialEq, Eq, Structural)]
pub enum Flag {
    Colour,
    Width,
    Height,
    Scale,
    Speed,
    Length,
}

/// The option that an argument names, if any.
pub open spec fn flag_of(arg: Seq<char>) -> Option<Flag> {
    if arg == "-c"@ || arg == "--colour"@ {
        Some(Flag::Colour)
    } else if arg == "-w"@ || arg == "--width"@ {
        Some(Flag::Width)
    } else if arg == "-h"@ || arg == "--height"@ {
        Some(Flag::Height)
    } else if arg == "-s"@ || arg == "--scale"@ {
        Some(Flag::Scale)
    } else if arg == "-r"@ || arg == "--speed"@ || arg == "--rate"@ {
        Some(Flag::Speed)
    } else if arg == "-l"@ || arg == "--length"@ {
        Some(Flag::Length)
    } else {
        None
    }
}

/// The parameters `config` with the one that `flag` names read from `value`:
/// the colour in hexadecimal, the others in decimal.
pub open spec fn applied(config: Config, flag: Flag, value: Seq<char>) -> Result<Config, ConfigError> {
    match flag {
        Flag::Colour => match unsigned_of(value, 16, u32::MAX as nat) {
            Some(v) => Ok(Config { colour: v as u32, ..config }),
            None => Err(ConfigError::Colour),
        },
        Flag::Width => match unsigned_of(value, 10, usize::MAX as nat) {
            Some(v) => Ok(Config { width: v as usize, ..config }),
            None => Err(ConfigError::Width),
        },
        Flag::Height => match unsigned_of(value, 10, usize::MAX as nat) {
            Some(v) => Ok(Config { height: v as usize, ..config }),
            None => Err(ConfigError::Height),
        },
        Flag::Scale => match unsigned_of(value, 10, usize::MAX as nat) {
            Some(v) => Ok(Config { scale: v as usize, ..config }),
            None => Err(ConfigError::Scale),
        },
        Flag::Speed => match unsigned_of(value, 10, u64::MAX as nat) {
            Some(v) => Ok(Config { speed: v as u64, ..config }),
            None => Err(ConfigError::Speed),
        },
        Flag::Length => match unsigned_of(value, 10, usize::MAX as nat) {
            Some(v) => Ok(Config { length: v as usize, ..config }),
            None => Err(ConfigError::Length),
        },
    }
}

/// The parameters that the arguments from number `at` on make of `config`.
/// Arguments come in pairs of an option and its value; a later pair
/// overrides an earlier one; the first fault ends the reading.
pub open spec fn parsed_from(args: Seq<String>, at: int, config: Config) -> Result<Config, ConfigError>
    decreases args.len() - at,
{
    if at < 0 || at >= args.len() {
        Ok(config)
    } else {
        match flag_of(args[at]@) {
            None => Err(ConfigError::UnknownArgument),
            Some(flag) => if at + 1 >= args.len() {
                Err(ConfigError::Usage)
            } else {
                match applied(config, flag, args[at + 1]@) {
                    Ok(next) => parsed_from(args, at + 2, next),
                    Err(e) => Err(e),
                }
            },
        }
    }
}

impl Flag {
    /// Reads an option's name.
    pub fn parse(arg: &str) -> (flag: Option<Flag>)
        ensures
            flag == flag_of(arg@),
    {
        if same_text(arg, "-c") || same_text(arg, "--colour") {
            Some(Flag::Colour)
        } else if same_text(arg, "-w") || same_text(arg, "--width") {
            Some(Flag::Width)
        } else if same_text(arg, "-h") || same_text(arg, "--height") {
            Some(Flag::Height)
        } else if same_text(arg, "-s") || same_text(arg, "--scale") {
            Some(Flag::Scale)
        } else if same_text(arg, "-r") || same_text(arg, "--speed") || same_text(arg, "--rate") {
            Some(Flag::Speed)
        } else if same_text(arg, "-l") || same_text(arg, "--length") {
            Some(Flag::Length)
        } else {
            None
        }
    }
}

impl Config {
    /// The parameters of a match when no option is given: a cyan snake on
    /// thirty by thirty cells of five pixels, a tick every 75 milliseconds,
    /// and a starting length of ten.
    pub open spec fn standard() -> Config {
        Config { colour: 0x00_FF_FF, width: 30, height: 30, scale: 5, speed: 75, length: 10 }
    }

    /// A match can be played with these parameters: the board has a cell, its
    /// cells can be numbered in 32 bits, and the snake starts shorter than
    /// the board.
    pub open spec fn playable(&self) -> bool {
        &&& 1 <= self.width
        &&& 1 <= self.height
        &&& self.width * self.height <= u32::MAX
        &&& self.length < self.width * self.height
    }

    /// The board's blocks all lie on a surface of `xres` by `yres` pixels.
    pub open spec fn fits(&self, xres: usize, yres: usize) -> bool {
        &&& self.width * self.scale <= xres
        &&& self.height * self.scale <= yres
    }

    /// Whether a match can be played with these parameters.
    pub fn is_playable(&self) -> (ok: bool)
        ensures
            ok == self.playable(),
    {
        if self.width == 0 || self.height == 0 {
            return false;
        }
        match self.width.checked_mul(self.height) {
            Some(cells) => cells <= u32::MAX as usize && self.length < cells,
            None => false,
        }
    }

    /// Checks the board against a surface of `xres` by `yres` pixels: the
    /// width is checked first, then the height.
    pub fn validate(&self, xres: usize, yres: usize) -> (r: Result<(), ConfigError>)
        ensures
            r is Ok <==> self.fits(xres, yres),
            r == Err::<(), ConfigError>(ConfigError::TooWide) <==> self.width * self.scale > xres,
            r == Err::<(), ConfigError>(ConfigError::TooTall) <==> (self.width * self.scale <= xres
                && self.height * self.scale > yres),
    {
        let wide = match self.width.checked_mul(self.scale) {
            Some(pixels) => pixels > xres,
            None => true,
        };
        if wide {
            return Err(ConfigError::TooWide);
        }
        let tall = match self.height.checked_mul(self.scale) {
            Some(pixels) => pixels > yres,
            None => true,
        };
        if tall {
            return Err(ConfigError::TooTall);
        }
        Ok(())
    }

    /// Sets the parameter that `flag` names from the text of its value.
    pub fn with(self, flag: Flag, value: &str) -> (r: Result<Config, ConfigError>)
        ensures
            r == applied(self, flag, value@),
    {
        let mut config = self;
        match flag {
            Flag::Colour => match parse_unsigned(value, 16, u32::MAX as u64) {
                Some(v) => {
                    config.colour = v as u32;
                },
                None => {
                    return Err(ConfigError::Colour);
                },
            },
            Flag::Width => match parse_unsigned(value, 10, usize::MAX as u64) {
                Some(v) => {
                    config.width = v as usize;
                },
                None => {
                    return Err(ConfigError::Width);
                },
            },
            Flag::Height => match parse_unsigned(value, 10, usize::MAX as u64) {
                Some(v) => {
                    config.height = v as usize;
                },
                None => {
                    return Err(ConfigError::Height);
                },
            },
            Flag::Scale => match parse_unsigned(value, 10, usize::MAX as u64) {
                Some(v) => {
                    config.scale = v as usize;
                },
                None => {
                    return Err(ConfigError::Scale);
                },
            },
            Flag::Speed => match parse_unsigned(value, 10, u64::MAX) {
                Some(v) => {
                    config.speed = v;
                },
                None => {
                    return Err(ConfigError::Speed);
                },
            },
            Flag::Length => match parse_unsigned(value, 10, usize::MAX as u64) {
                Some(v) => {
                    config.length = v as usize;
                },
                None => {
                    return Err(ConfigError::Length);
                },
            },
        }
        Ok(config)
    }

    /// Reads the parameters from the command line's arguments, the
    /// program's name left out. What no option sets keeps its standard value.
    pub fn parse_args(args: &Vec<String>) -> (r: Result<Config, ConfigError>)
        ensures
            r == parsed_from(args@, 0, Config::standard()),
    {
        let mut config = Config::default();
        let n: usize = args.len();
        let mut at: usize = 0;
        while at < n
            invariant
                at <= n,
                n == args@.len(),
                parsed_from(args@, at as int, config) == parsed_from(args@, 0, Config::standard()),
            decreases n - at,
        {
            let flag = match Flag::parse(args[at].as_str()) {
                Some(flag) => flag,
                None => {
                    return Err(ConfigError::UnknownArgument);
                },
            };
            if n - at < 2 {
                return Err(ConfigError::Usage);
            }
            config =
            match config.with(flag, args[at + 1].as_str()) {
                Ok(next) => next,
                Err(e) => {
                    return Err(e);
                },
            };
            at += 2;
        }
        Ok(config)
    }
}

impl Default for Config {
    fn default() -> (config: Config)
        ensures
            config == Config::standard(),
    {
        Config { colour: 0x00_FF_FF, width: 30, height: 30, scale: 5, speed: 75, length: 10 }
    }
}

impl ConfigError {
    /// What the operator is told, `name` being the program's name.
    pub open spec fn text(self, name: Seq<char>) -> Seq<char> {
        match self {
            ConfigError::Usage => "Usage: '"@ + name
                + " -c <colour> -w <width> -h <height> -s <scale> -r <rate> -l <start length>'"@,
            ConfigError::Colour => "Colour must be in the form 'RRGGBB' where R/G/B is a hex digit"@,
            ConfigError::Width => "Width must be an integer"@,
            ConfigError::Height => "Height must be an integer"@,
            ConfigError::Scale => "Scale must be an integer"@,
            ConfigError::Speed => "Speed must be an integer representing the time it takes for the snake to move"@,
            ConfigError::Length => "Starting length must be an integer"@,
            ConfigError::UnknownArgument => "Unknown argument passed"@,
            ConfigError::TooWide => "'width' * 'scale' cannot be bigger than framebuffer width"@,
            ConfigError::TooTall => "'height' * 'scale' cannot be bigger than framebuffer height"@,
        }
    }

    /// The message for the operator, `name` being the program's name.
    pub fn message(&self, name: &str) -> (m: String)
        ensures
            m@ == self.text(name@),
    {
        match self {
            ConfigError::Usage => {
                let mut m = String::from_str("Usage: '");
                m.append(name);
                m.append(
                    " -c <colour> -w <width> -h <height> -s <scale> -r <rate> -l <start length>'",
                );
                m
            },
            ConfigError::Colour => String::from_str(
                "Colour must be in the form 'RRGGBB' where R/G/B is a hex digit",
            ),
            ConfigError::Width => String::from_str("Width must be an integer"),
            ConfigError::Height => String::from_str("Height must be an integer"),
            ConfigError::Scale => String::from_str("Scale must be an integer"),
            ConfigError::Speed => String::from_str(
                "Speed must be an integer representing the time it takes for the snake to move",
            ),
            ConfigError::Length => String::from_str("Starting length must be an integer"),
            ConfigError::UnknownArgument => String::from_str("Unknown argument passed"),
            ConfigError::TooWide => String::from_str(
                "'width' * 'scale' cannot be bigger than framebuffer width",
            ),
            ConfigError::TooTall => String::from_str(
                "'height' * 'scale' cannot be bigger than framebuffer height",
            ),
        }
    }
}

} // verus!
