//! Environment variables — a simple key/value store.

use crate::table::{first_free, first_with_key, lemma_found_in_range, stored, NamedSlots, SlotView};
use crate::utf8text::str_from_utf8;
use vstd::prelude::*;
use vstd::string::StringSliceAdditionalSpecFns;
use vstd::utf8::{decode_utf8, encode_utf8_decode_utf8, valid_utf8};

verus! {

/// Number of variable slots.
pub const MAX_VARS: usize = 16;

/// Maximum number of bytes kept of a variable name.
pub const MAX_KEY: usize = 32;

/// Maximum number of bytes kept of a variable value.
pub const MAX_VAL: usize = 64;

/// The environment: up to [`MAX_VARS`] variables.
pub struct Environment {
    vars: NamedSlots,
}

/// What [`get_var`] returns for the slots `s`: the value of the first
/// variable named `key` when it is valid UTF-8, else the empty string.
pub open spec fn lookup_text(s: Seq<SlotView>, key: Seq<u8>) -> Seq<char> {
    match first_with_key(s, key) {
        Some(j) => if valid_utf8(s[j]->Some_0.1) {
            decode_utf8(s[j]->Some_0.1)
        } else {
            Seq::empty()
        },
        None => Seq::empty(),
    }
}

impl Environment {
    /// The slots, in order.
    pub closed spec fn slots(&self) -> Seq<SlotView> {
        self.vars.view()
    }

    /// Creates an empty environment.
    pub fn new() -> (r: Self)
        ensures
            r.slots() == Seq::new(MAX_VARS as nat, |i: int| None::<(Seq<u8>, Seq<u8>)>),
    {
        Environment { vars: NamedSlots::new(MAX_VARS) }
    }

    /// Sets variable `key` to `val`.
    ///
    /// An existing variable with exactly this name gets the new value (cut
    /// to [`MAX_VAL`] bytes); otherwise the first free slot gets the name cut
    /// to [`MAX_KEY`] bytes and the cut value. Returns `false`, changing
    /// nothing, when the name is new and all slots are taken.
    pub fn set(&mut self, key: &str, val: &str) -> (r: bool)
        ensures
            final(self).slots() == stored(
                old(self).slots(),
                key.spec_bytes(),
                val.spec_bytes(),
                MAX_KEY as nat,
                MAX_VAL as nat,
            ),
            r == (first_with_key(old(self).slots(), key.spec_bytes()) is Some || first_free(
                old(self).slots(),
            ) is Some),
    {
        self.vars.set(key.as_bytes(), val.as_bytes(), MAX_KEY, MAX_VAL)
    }

    /// The name and value bytes held in slot `i`, if it is taken.
    pub fn slot(&self, i: usize) -> (r: Option<(&[u8], &[u8])>)
        requires
            i < self.slots().len(),
        ensures
            match r {
                Some((k, v)) => self.slots()[i as int] == Some((k@, v@)),
                None => self.slots()[i as int] is None,
            },
    {
        self.vars.slot(i)
    }
}

/// Initialize default environment variables.
pub fn init_defaults(env: &mut Environment)
    ensures
        final(env).slots() == stored(
            stored(
                old(env).slots(),
                "VERSION".spec_bytes(),
                "0.4.0".spec_bytes(),
                MAX_KEY as nat,
                MAX_VAL as nat,
            ),
            "SHELL".spec_bytes(),
            "minios-shell".spec_bytes(),
            MAX_KEY as nat,
            MAX_VAL as nat,
        ),
{
    let _ = env.set("VERSION", "0.4.0");
    let _ = env.set("SHELL", "minios-shell");
}

/// Looks up a variable and returns its value (or the empty string).
pub fn get_var(env: &Environment, key: &str) -> (r: String)
    ensures
        r@ == lookup_text(env.slots(), key.spec_bytes()),
{
    match env.vars.find(key.as_bytes()) {
        Some(j) => {
            proof {
                lemma_found_in_range(env.slots(), key.spec_bytes());
            }
            match str_from_utf8(env.vars.value_at(j)) {
                Some(s) => {
                    proof {
                        encode_utf8_decode_utf8(s@);
                    }
                    s.to_owned()
                },
                None => String::new(),
            }
        },
        None => String::new(),
    }
}

} // verus!
