use vstd::prelude::*;

verus! {

/// What the keyboard layout produced for a key, as far as it produced anything.
pub struct KeySymbol {
    pub text: Option<String>,
}

/// A printable caption for a key.
pub trait KeyExt {
    fn to_string(&self) -> String;
}

/// Names what `str::to_uppercase` returns for a string.
pub uninterp spec fn upper_of(s: Seq<char>) -> Seq<char>;

/// Relies on `str::to_uppercase`: the result depends on the characters alone,
/// and an empty string stays empty.
#[verifier::external_body]
fn uppercase(s: &str) -> (r: String)
    ensures
        r@ == upper_of(s@),
        s@.len() == 0 ==> r@.len() == 0,
{
    s.to_uppercase()
}

/// The caption shown for a key when the layout gives it no symbol.
pub open spec fn unknown_caption() -> Seq<char> {
    seq!['(', '?', ')']
}

/// The caption for an optional symbol: the symbol upper-cased, or `(?)`.
pub open spec fn caption_of(sym: Option<Seq<char>>) -> Seq<char> {
    match sym {
        Some(s) => upper_of(s),
        None => unknown_caption(),
    }
}

/// Caption for what the layout produced: upper-cased symbol, or `(?)` when
/// there is none.
pub fn symbol_caption(sym: &Option<String>) -> (r: String)
    ensures
        r@ == caption_of(
            match sym {
                Some(s) => Some(s@),
                None => None,
            },
        ),
{
    match sym {
        Some(s) => uppercase(s.as_str()),
        None => {
            let r = String::from_str("(?)");
            proof {
                reveal_strlit("(?)");
            }
            r
        },
    }
}

impl KeyExt for KeySymbol {
    fn to_string(&self) -> String {
        symbol_caption(&self.text)
    }
}

} // verus!
