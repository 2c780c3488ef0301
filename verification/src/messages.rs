//! Folding the flash messages of a request into the strings the HTML
//! form pages display.

use vstd::prelude::*;
use vstd::string::StringExecFns;

verus! {

/// Severity of a flash message.
#[derive(PartialEq, Eq, Structural, Clone, Copy, Debug)]
pub enum Level {
    Debug,
    Info,
    Success,
    Warning,
    Error,
}

/// One flash message carried into a page render.
#[derive(Debug)]
pub struct FlashMessage {
    pub level: Level,
    pub content: String,
}

/// The contents of the messages at one level, each followed by a line
/// break, in arrival order.
pub open spec fn joined_messages(msgs: Seq<FlashMessage>, level: Level) -> Seq<char>
    decreases msgs.len(),
{
    if msgs.len() == 0 {
        Seq::empty()
    } else {
        joined_messages(msgs.drop_last(), level) + if msgs.last().level == level {
            msgs.last().content@ + "\n"@
        } else {
            Seq::empty()
        }
    }
}

/// Folds the messages at one level into the string a form page shows.
#[verifier::loop_isolation(false)]
pub fn collect_messages(msgs: &Vec<FlashMessage>, level: Level) -> (r: String)
    ensures
        r@ == joined_messages(msgs@, level),
{
    let mut r = String::new();
    let n = msgs.len();
    let mut i: usize = 0;
    while i < n
        invariant
            0 <= i <= n,
            r@ == joined_messages(msgs@.take(i as int), level),
        decreases n - i,
    {
        if msgs[i].level == level {
            r.append(msgs[i].content.as_str());
            r.append("\n");
        }
        proof {
            assert(msgs@.take(i + 1).drop_last() =~= msgs@.take(i as int));
            assert(msgs@.take(i + 1).last() == msgs@[i as int]);
        }
        i = i + 1;
    }
    proof {
        assert(msgs@.take(n as int) =~= msgs@);
    }
    r
}

} // verus!
