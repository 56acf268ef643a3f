use vstd::prelude::*;

verus! {

/// One tracked key: the key's identity (its name, such as `KeyZ`) and the
/// label shown under its column.
pub struct K {
    pub key: String,
    pub label: String,
}

/// Display parameters and the ordered list of tracked keys.
pub struct Config {
    pub keys: Vec<K>,
    pub key_size: usize,
    pub key_spacing: usize,
    pub scroll_speed: usize,
    pub active_color: usize,
    pub padding: usize,
}

impl Default for Config {
    fn default() -> (r: Config)
        ensures
            r.keys@.len() == 2,
            r.keys@[0].key@ == "KeyZ"@,
            r.keys@[0].label@ == "K1"@,
            r.keys@[1].key@ == "KeyX"@,
            r.keys@[1].label@ == "K2"@,
            r.key_size == 40,
            r.key_spacing == 16,
            r.scroll_speed == 360,
            r.active_color == 0x808080,
            r.padding == 16,
    {
        let keys = vec![
            K { key: String::from_str("KeyZ"), label: String::from_str("K1") },
            K { key: String::from_str("KeyX"), label: String::from_str("K2") },
        ];
        Config {
            keys,
            key_size: 40,
            key_spacing: 16,
            scroll_speed: 360,
            active_color: 0x808080,
            padding: 16,
        }
    }
}

/// Smallest window width that fits every column: both paddings, each key
/// cap, and the spacing between neighbouring caps.
pub open spec fn min_width(keys: nat, key_size: nat, key_spacing: nat, padding: nat) -> int {
    let gaps: int = if keys > 0 { keys - 1 } else { 0 };
    padding * 2 + keys * key_size + key_spacing * gaps
}

impl Config {
    /// The smallest window width that fits every column, or `None` when it
    /// does not fit in `usize`.
    pub fn min_window_width(&self) -> (r: Option<usize>)
        ensures
            ({
                let w = min_width(
                    self.keys@.len(),
                    self.key_size as nat,
                    self.key_spacing as nat,
                    self.padding as nat,
                );
                match r {
                    Some(x) => x == w,
                    None => w > usize::MAX,
                }
            }),
    {
        let n: usize = self.keys.len();
        let gaps: usize = if n > 0 { n - 1 } else { 0 };
        let pads = match self.padding.checked_mul(2) {
            Some(v) => v,
            None => return None,
        };
        let caps = match n.checked_mul(self.key_size) {
            Some(v) => v,
            None => {
                proof {
                    assert(n * self.key_size >= 0) by (nonlinear_arith);
                    assert(self.key_spacing * gaps >= 0) by (nonlinear_arith);
                }
                return None;
            },
        };
        let spaces = match self.key_spacing.checked_mul(gaps) {
            Some(v) => v,
            None => return None,
        };
        proof {
            assert(n * self.key_size >= 0) by (nonlinear_arith);
            assert(self.key_spacing * gaps >= 0) by (nonlinear_arith);
        }
        let a = match pads.checked_add(caps) {
            Some(v) => v,
            None => return None,
        };
        match a.checked_add(spaces) {
            Some(v) => Some(v),
            None => None,
        }
    }
}

} // verus!
