//! The desktop shell: which window may call the native commands, and the
//! OAuth callbacks that arrive before the application is ready.
use vstd::prelude::*;
use crate::api_error::{ApiError, is_plain_error};
use crate::config::REDIRECT_URI;
use crate::text::{byte_len, has_prefix, starts_with, str_byte_len, str_eq};

verus! {

/// Callbacks kept until the sign-in manager exists.
pub const MAX_PENDING_DEEP_LINKS: usize = 4;
/// The longest callback URL that is read.
pub const MAX_DEEP_LINK_LENGTH: usize = 8 * 1024;

/// Native commands answer the main window only.
pub fn ensure_main_window(label: &str) -> (r: Result<(), ApiError>)
    ensures
        r is Ok == (label@ == "main"@),
        r matches Err(e) ==> is_plain_error(
            e,
            400,
            "invalid_native_request"@,
            "This command is not available to the current window."@,
        ),
{
    if str_eq(label, "main") {
        Ok(())
    } else {
        Err(ApiError::command("This command is not available to the current window."))
    }
}

/// A deep link that may be a callback of the browser authorization:
/// bounded, and on the registered redirect URI.
pub open spec fn callback_link(value: Seq<char>) -> bool {
    byte_len(value) <= MAX_DEEP_LINK_LENGTH && has_prefix(value, REDIRECT_URI@)
}

pub fn is_callback_link(value: &str) -> (r: bool)
    ensures
        r == callback_link(value@),
{
    str_byte_len(value) <= MAX_DEEP_LINK_LENGTH && starts_with(value, REDIRECT_URI)
}

/// Callbacks that arrived before the sign-in manager, oldest first; only
/// the newest `MAX_PENDING_DEEP_LINKS` are kept.
#[derive(Debug)]
pub struct PendingDeepLinks {
    links: Vec<String>,
}

impl View for PendingDeepLinks {
    type V = Seq<Seq<char>>;

    closed spec fn view(&self) -> Seq<Seq<char>> {
        self.links@.map_values(|s: String| s@)
    }
}

impl PendingDeepLinks {
    pub closed spec fn wf(&self) -> bool {
        self.links@.len() <= MAX_PENDING_DEEP_LINKS
    }

    pub fn new() -> (r: PendingDeepLinks)
        ensures
            r.wf(),
            r@ == Seq::<Seq<char>>::empty(),
    {
        let r = PendingDeepLinks { links: Vec::new() };
        proof {
            assert(r@ =~= Seq::<Seq<char>>::empty());
        }
        r
    }

    /// Keeps a callback link for later, dropping the oldest when full;
    /// anything else is ignored.
    pub fn push(&mut self, value: String)
        requires
            old(self).wf(),
        ensures
            final(self).wf(),
            final(self)@.len() <= MAX_PENDING_DEEP_LINKS,
            !callback_link(value@) ==> final(self)@ == old(self)@,
            callback_link(value@) && old(self)@.len() < MAX_PENDING_DEEP_LINKS ==> final(self)@
                == old(self)@.push(value@),
            callback_link(value@) && old(self)@.len() == MAX_PENDING_DEEP_LINKS ==> final(self)@
                == old(self)@.drop_first().push(value@),
            callback_link(value@) ==> final(self)@.len() >= 1 && final(self)@.last() == value@,
    {
        if !is_callback_link(value.as_str()) {
            return;
        }
        let ghost before = self.links@;
        if self.links.len() == MAX_PENDING_DEEP_LINKS {
            self.links.remove(0);
        }
        let ghost middle = self.links@;
        self.links.push(value);
        proof {
            if before.len() == MAX_PENDING_DEEP_LINKS {
                assert(middle =~= before.drop_first());
            }
            assert(self.links@ =~= middle.push(self.links@.last()));
            assert(self@ =~= middle.map_values(|s: String| s@).push(value@));
            if before.len() == MAX_PENDING_DEEP_LINKS {
                assert(middle.map_values(|s: String| s@) =~= before.map_values(|s: String| s@).drop_first());
            }
        }
    }

    /// Hands over the kept links, oldest first, and forgets them.
    pub fn drain(&mut self) -> (r: Vec<String>)
        requires
            old(self).wf(),
        ensures
            final(self).wf(),
            final(self)@ == Seq::<Seq<char>>::empty(),
            r@.map_values(|s: String| s@) == old(self)@,
    {
        let mut taken: Vec<String> = Vec::new();
        std::mem::swap(&mut taken, &mut self.links);
        proof {
            assert(self@ =~= Seq::<Seq<char>>::empty());
        }
        taken
    }
}

} // verus!
