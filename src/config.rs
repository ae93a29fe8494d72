//! Settings of the program around the library, and a display that only prints.
use vstd::prelude::*;

verus! {

/// Where the server listens, how it rotates pages and how it draws text.
pub struct Config<'a> {
    pub bind: &'a str,
    /// Milliseconds that each page stays on the display.
    pub page_roll_interval: u32,
    pub display_size: &'a str,
    pub font: &'a str,
    /// Pixels between the tops of consecutive text lines.
    pub line_interval: u32,
}

impl<'a> Default for Config<'a> {
    fn default() -> (r: Self)
        ensures
            r.bind@ == "127.0.0.1:17900"@,
            r.page_roll_interval == 5000,
            r.display_size@ == "128x32"@,
            r.font@ == "6x8"@,
            r.line_interval == 10,
    {
        Config {
            bind: "127.0.0.1:17900",
            page_roll_interval: 5000,
            display_size: "128x32",
            font: "6x8",
            line_interval: 10,
        }
    }
}

/// A display that writes each page it is given to standard output.
pub struct Print;

} // verus!
