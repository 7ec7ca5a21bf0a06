//! The Lua scripts that change a queue: which keys and arguments each is called with, and what
//! its reply means.

use vstd::prelude::*;
use vstd::slice::slice_to_vec;
use vstd::utf8::encode_utf8;
use crate::text::texts;

pub mod add_delayed_job;
pub mod add_standard_job;
pub mod move_to_active;
pub mod move_to_finished;
pub mod retry_job;
pub mod stored_job;

verus! {

/// One call of a script: the keys and the arguments, in order.
#[derive(Debug)]
pub struct ScriptCall {
    pub keys: Vec<String>,
    pub args: Vec<Vec<u8>>,
}

/// A call with its keys as character sequences and its arguments as byte sequences.
#[verifier::ext_equal]
pub struct ScriptCallView {
    pub keys: Seq<Seq<char>>,
    pub args: Seq<Seq<u8>>,
}

impl View for ScriptCall {
    type V = ScriptCallView;

    open spec fn view(&self) -> ScriptCallView {
        ScriptCallView {
            keys: texts(self.keys@),
            args: self.args@.map_values(|arg: Vec<u8>| arg@),
        }
    }
}

/// The bytes of a text in UTF-8, which is how a text is sent.
pub fn bytes_of(s: &str) -> (bytes: Vec<u8>)
    ensures
        bytes@ == encode_utf8(s@),
{
    slice_to_vec(s.as_bytes())
}

} // verus!
