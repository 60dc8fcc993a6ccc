//! How a loaded store follows the ids its profiles got: every reference to
//! a session id is mapped to the id its profile has after loading, first by
//! the exact id and then by the normalized one, where that is unambiguous.
//! Also what a runtime that was live when the app stopped records on load.
use vstd::prelude::*;
use crate::keyed::KeyedTable;
use crate::reconnect::SessionStatus;
use crate::text::{opt_view, str_eq};

verus! {

/// The ids that loaded profiles had, and the ids they got.
#[derive(Debug)]
pub struct LoadedSessionIdRemap {
    exact: KeyedTable<String>,
    normalized: KeyedTable<Option<String>>,
}

impl LoadedSessionIdRemap {
    /// The id given to the profile that had exactly the id `k`.
    pub closed spec fn exact(self, k: Seq<char>) -> Option<Seq<char>> {
        match self.exact.value(k) {
            Some(s) => Some(s@),
            None => None,
        }
    }

    /// The id given to the profiles whose normalized id was `k`: none when
    /// those profiles got different ids.
    pub closed spec fn by_normalized(self, k: Seq<char>) -> Option<Option<Seq<char>>> {
        match self.normalized.value(k) {
            Some(o) => Some(opt_view(o)),
            None => None,
        }
    }

    pub closed spec fn wf(self) -> bool {
        self.exact.wf() && self.normalized.wf()
    }

    /// A remap that knows no profile.
    pub fn new() -> (r: Self)
        ensures
            r.wf(),
            forall|k: Seq<char>| #[trigger] r.exact(k) is None,
            forall|k: Seq<char>| #[trigger] r.by_normalized(k) is None,
    {
        let r = LoadedSessionIdRemap { exact: KeyedTable::new(), normalized: KeyedTable::new() };
        assert forall|k: Seq<char>| #[trigger] r.exact(k) is None by {
            assert(r.exact.value(k) is None);
        }
        assert forall|k: Seq<char>| #[trigger] r.by_normalized(k) is None by {
            assert(r.normalized.value(k) is None);
        }
        r
    }

    /// Records that the profile that had `original_id` (whose normalized
    /// form is `original_normalized`) got `normalized_id`: the first profile
    /// with an exact id keeps it; a normalized id that profiles share maps to
    /// their id only while they all got the same one.
    pub fn insert(&mut self, original_id: &str, original_normalized: &str, normalized_id: &str)
        requires
            old(self).wf(),
        ensures
            final(self).wf(),
            forall|k: Seq<char>| #[trigger] final(self).exact(k) == if k == original_id@ && old(self).exact(k) is None {
                Some(normalized_id@)
            } else {
                old(self).exact(k)
            },
            forall|k: Seq<char>| #[trigger] final(self).by_normalized(k) == if k == original_normalized@ {
                match old(self).by_normalized(k) {
                    None => Some(Some(normalized_id@)),
                    Some(v) => if v == Some(normalized_id@) {
                        Some(v)
                    } else {
                        Some(None::<Seq<char>>)
                    },
                }
            } else {
                old(self).by_normalized(k)
            },
    {
        let ghost before = *self;
        if self.exact.get(original_id).is_none() {
            self.exact.set(String::from_str(original_id), String::from_str(normalized_id));
        }
        assert forall|k: Seq<char>| #[trigger] self.exact(k) == if k == original_id@ && before.exact(k) is None {
            Some(normalized_id@)
        } else {
            before.exact(k)
        } by {
            if k != original_id@ {
                assert(self.exact.value(k) == before.exact.value(k));
            }
        }
        let ghost middle = *self;
        let current = match self.normalized.get(original_normalized) {
            None => 0u8,
            Some(v) => match v {
                Some(s) => if str_eq(s.as_str(), normalized_id) {
                    1u8
                } else {
                    2u8
                },
                None => 2u8,
            },
        };
        if current == 0 {
            self.normalized.set(String::from_str(original_normalized), Some(String::from_str(normalized_id)));
        } else if current == 2 {
            self.normalized.set(String::from_str(original_normalized), None);
        }
        assert forall|k: Seq<char>| #[trigger] self.by_normalized(k) == if k == original_normalized@ {
            match before.by_normalized(k) {
                None => Some(Some(normalized_id@)),
                Some(v) => if v == Some(normalized_id@) {
                    Some(v)
                } else {
                    Some(None::<Seq<char>>)
                },
            }
        } else {
            before.by_normalized(k)
        } by {
            if k != original_normalized@ {
                assert(self.normalized.value(k) == middle.normalized.value(k));
            }
        }
        assert forall|k: Seq<char>| #[trigger] self.exact(k) == middle.exact(k) by {
            assert(self.exact.value(k) == middle.exact.value(k));
        }
    }

    /// The id that a reference to `session_id` (whose normalized form is
    /// `session_normalized`) now names: the id given for the exact id, else
    /// the one for the normalized id, else the id unchanged.
    pub fn resolve(&self, session_id: &str, session_normalized: &str) -> (r: String)
        ensures
            r@ == match self.exact(session_id@) {
                Some(x) => x,
                None => match self.by_normalized(session_normalized@) {
                    Some(Some(x)) => x,
                    _ => session_id@,
                },
            },
    {
        if let Some(s) = self.exact.get(session_id) {
            return s.clone();
        }
        match self.normalized.get(session_normalized) {
            Some(Some(s)) => s.clone(),
            _ => String::from_str(session_id),
        }
    }
}

/// The session id a stored reference names after loading.
pub fn remap_loaded_session_id(session_id: &str, session_normalized: &str, remap: &LoadedSessionIdRemap) -> (r: String)
    ensures
        r@ == match remap.exact(session_id@) {
            Some(x) => x,
            None => match remap.by_normalized(session_normalized@) {
                Some(Some(x)) => x,
                _ => session_id@,
            },
        },
{
    remap.resolve(session_id, session_normalized)
}

/// When and why a runtime that was saved with `saved_status` last
/// disconnected, once the store is loaded at `loaded_at`: a connected or
/// connecting runtime was interrupted at load time; a reconnecting one keeps
/// an earlier disconnect time; the others keep what they had.
pub open spec fn interrupted_disconnect(
    saved_status: SessionStatus,
    last_disconnect: Option<i64>,
    last_reason: Option<Seq<char>>,
    loaded_at: i64,
) -> (Option<i64>, Option<Seq<char>>) {
    match saved_status {
        SessionStatus::Connected => (Some(loaded_at), Some("connection interrupted by previous PortMate shutdown"@)),
        SessionStatus::Connecting => (
            Some(loaded_at),
            Some("connection attempt interrupted by previous PortMate shutdown"@),
        ),
        SessionStatus::Reconnecting => (
            match last_disconnect {
                Some(t) => Some(t),
                None => Some(loaded_at),
            },
            Some("reconnect interrupted by previous PortMate shutdown"@),
        ),
        _ => (last_disconnect, last_reason),
    }
}

pub fn loaded_runtime_disconnect(
    saved_status: SessionStatus,
    last_disconnect: Option<i64>,
    last_reason: Option<String>,
    loaded_at: i64,
) -> (r: (Option<i64>, Option<String>))
    ensures
        (r.0, opt_view(r.1)) == interrupted_disconnect(saved_status, last_disconnect, opt_view(last_reason), loaded_at),
{
    match saved_status {
        SessionStatus::Connected => (
            Some(loaded_at),
            Some(String::from_str("connection interrupted by previous PortMate shutdown")),
        ),
        SessionStatus::Connecting => (
            Some(loaded_at),
            Some(String::from_str("connection attempt interrupted by previous PortMate shutdown")),
        ),
        SessionStatus::Reconnecting => (
            match last_disconnect {
                Some(t) => Some(t),
                None => Some(loaded_at),
            },
            Some(String::from_str("reconnect interrupted by previous PortMate shutdown")),
        ),
        _ => (last_disconnect, last_reason),
    }
}

} // verus!
