//! Records of the terminal's line settings and of the display's geometry, as
//! the operating system hands them out.

use vstd::prelude::*;

verus! {

/// Local-mode flag: typed characters are echoed.
pub const TC_ECHO: u32 = 0o0010;

/// Local-mode flag: input is handed over line by line.
pub const TC_ICANON: u32 = 0o0002;

/// The signal that an interrupt from the keyboard raises.
pub const SIGINT: i32 = 2;

/// Where one colour channel sits inside a pixel.
#[allow(non_camel_case_types)]
#[derive(Clone, Copy, Debug, PartialEq, Eq)]
pub struct fb_bitfield {
    pub offset: u32,
    pub length: u32,
    pub msb_right: u32,
}

/// The display's variable screen information.
#[allow(non_camel_case_types)]
#[derive(Clone, Copy, Debug, PartialEq, Eq)]
pub struct fb_var_screeninfo {
    pub xres: u32,
    pub yres: u32,
    pub xres_virtual: u32,
    pub yres_virtual: u32,
    pub xoffset: u32,
    pub yoffset: u32,
    pub bits_per_pixel: u32,
    pub grayscale: u32,
    pub red: fb_bitfield,
    pub green: fb_bitfield,
    pub blue: fb_bitfield,
    pub transp: fb_bitfield,
    pub non_std: u32,
    pub activate: u32,
    pub height: u32,
    pub width: u32,
    pub accel_flags: u32,
    pub pixclock: u32,
    pub left_margin: u32,
    pub right_margin: u32,
    pub upper_margin: u32,
    pub lower_margin: u32,
    pub hsync_len: u32,
    pub vsync_len: u32,
    pub sync: u32,
    pub vmode: u32,
    pub rotate: u32,
    pub colorspace: u32,
    pub reserved: [u32; 4],
}

impl fb_var_screeninfo {
    /// The number of bytes that the visible screen takes at four bytes a
    /// pixel.
    pub fn frame_bytes(&self) -> (len: usize)
        requires
            4 * self.xres * self.yres <= usize::MAX,
        ensures
            len == 4 * self.xres * self.yres,
    {
        assert(self.xres * self.yres <= 4 * self.xres * self.yres) by (nonlinear_arith);
        assert(4 * (self.xres * self.yres) == 4 * self.xres * self.yres) by (nonlinear_arith);
        let pixels: usize = (self.xres as usize) * (self.yres as usize);
        4 * pixels
    }
}

/// The terminal's line settings.
#[allow(non_camel_case_types)]
#[derive(Clone, Copy, Debug, PartialEq, Eq)]
pub struct termios {
    pub c_iflag: u32,
    pub c_oflag: u32,
    pub c_cflag: u32,
    pub c_lflag: u32,
    pub c_line: u8,
    pub c_cc: [u8; 32],
    pub c_ispeed: u32,
    pub c_ospeed: u32,
}

impl termios {
    /// Every flag, character and speed of the settings is zero.
    pub open spec fn is_blank(&self) -> bool {
        &&& self.c_iflag == 0
        &&& self.c_oflag == 0
        &&& self.c_cflag == 0
        &&& self.c_lflag == 0
        &&& self.c_line == 0
        &&& forall|i: int| 0 <= i < 32 ==> self.c_cc@[i] == 0
        &&& self.c_ispeed == 0
        &&& self.c_ospeed == 0
    }

    /// Settings with nothing set.
    pub fn none() -> (t: Self)
        ensures
            t.is_blank(),
    {
        Self {
            c_iflag: 0,
            c_oflag: 0,
            c_cflag: 0,
            c_lflag: 0,
            c_line: 0,
            c_cc: [0u8; 32],
            c_ispeed: 0,
            c_ospeed: 0,
        }
    }

    /// The same settings with echo and line-by-line input switched off, so
    /// that each keypress arrives at once and unseen.
    pub fn raw(&self) -> (t: Self)
        ensures
            t.c_lflag == self.c_lflag & !(TC_ECHO | TC_ICANON),
            t.c_lflag & TC_ECHO == 0,
            t.c_lflag & TC_ICANON == 0,
            t.c_lflag | TC_ECHO | TC_ICANON == self.c_lflag | TC_ECHO | TC_ICANON,
            t.c_iflag == self.c_iflag,
            t.c_oflag == self.c_oflag,
            t.c_cflag == self.c_cflag,
            t.c_line == self.c_line,
            t.c_cc == self.c_cc,
            t.c_ispeed == self.c_ispeed,
            t.c_ospeed == self.c_ospeed,
    {
        let flags: u32 = self.c_lflag;
        let cleared: u32 = flags & !(TC_ECHO | TC_ICANON);
        assert(cleared & 0o0010 == 0 && cleared & 0o0002 == 0 && cleared | 0o0010 | 0o0002 == flags
            | 0o0010 | 0o0002) by (bit_vector)
            requires
                cleared == flags & !(0o0010u32 | 0o0002u32),
        ;
        Self {
            c_iflag: self.c_iflag,
            c_oflag: self.c_oflag,
            c_cflag: self.c_cflag,
            c_lflag: cleared,
            c_line: self.c_line,
            c_cc: self.c_cc,
            c_ispeed: self.c_ispeed,
            c_ospeed: self.c_ospeed,
        }
    }
}

/// The status that the process leaves with after `signal` was handed to the
/// teardown: an interrupt from the keyboard is a clean exit, anything else is
/// passed on.
pub fn exit_status(signal: i32) -> (status: i32)
    ensures
        status == if signal == SIGINT {
            0
        } else {
            signal
        },
{
    if signal == SIGINT {
        0
    } else {
        signal
    }
}

} // verus!
