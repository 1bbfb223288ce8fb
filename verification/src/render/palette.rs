//! Whether output is colored: `NO_COLOR` set to a non-empty value turns it
//! off, then a non-terminal output does, else the config's `color` decides.
use vstd::prelude::*;

verus! {

/// The color decision. `no_color` is the `NO_COLOR` environment value, if set.
pub fn color_enabled(config_color: bool, is_tty: bool, no_color: Option<&str>) -> (r: bool)
    ensures
        r == (!(no_color matches Some(v) && v@.len() > 0) && is_tty && config_color),
{
    if let Some(v) = no_color {
        if crate::text::chars_of(v).len() > 0 {
            return false;
        }
    }
    if !is_tty {
        return false;
    }
    config_color
}

} // verus!
