//! One-time capability negotiation.
//!
//! At load time the host hands the plugin a record with its packed version, a
//! window handle, and capability fields.  Negotiation corrects the version,
//! derives the wide-encoding flag, the beta field and the buffer limit from
//! it, and stores the result in a write-once cell.  Every later reader sees
//! the same immutable record; if a reader arrives before any negotiation, a
//! conservative legacy default is locked in instead.

use vstd::prelude::*;

use crate::version::{fix_m_version, spec_fix_version, version_major, version_minor};

verus! {

/// The buffer limit of the oldest supported host releases, used whenever the
/// host predates the field that reports the real limit.
pub const LEGACY_BUFFER_BYTES: u32 = 900;

/// The packed version of the oldest supported host release, used for the
/// defensive default record.
pub const LEGACY_PACKED_VERSION: u32 = 0x003C_0005;

/// The plugin-side picture of the record the host passes at load time:
/// packed version, opaque window-handle value, keep-loaded flag, wide-mode
/// flag, beta version and buffer limit.
#[derive(Clone, Copy, Debug, PartialEq, Eq, Structural)]
pub struct LoadInfo {
    pub m_version: u32,
    pub m_hwnd: usize,
    pub m_keep: bool,
    pub m_unicode: bool,
    pub m_beta: u32,
    pub m_bytes: u32,
}

/// Error for a negotiation attempted after the record was already locked in:
/// a protocol violation by the host, which must negotiate exactly once.
#[derive(Clone, Copy, Debug, PartialEq, Eq, Structural)]
pub enum NegotiateError {
    AlreadyNegotiated,
}

/// Whether the corrected version `v` is at least `major.minor`.
pub open spec fn version_at_least(v: u32, major: u32, minor: u32) -> bool {
    version_major(v) > major || (version_major(v) == major && version_minor(v) >= minor)
}

/// The record a successful negotiation derives from the raw host record:
/// corrected version, wide mode for major versions 7 and up, the host's beta
/// field only from version 7.51 on, the host's buffer limit only from
/// version 7.64 on.
pub open spec fn spec_negotiate(raw: LoadInfo) -> LoadInfo {
    let v = spec_fix_version(raw.m_version);
    LoadInfo {
        m_version: v,
        m_hwnd: raw.m_hwnd,
        m_keep: raw.m_keep,
        m_unicode: version_major(v) >= 7,
        m_beta: if version_at_least(v, 7, 51) {
            raw.m_beta
        } else {
            0
        },
        m_bytes: if version_at_least(v, 7, 64) {
            raw.m_bytes
        } else {
            LEGACY_BUFFER_BYTES
        },
    }
}

/// The conservative default record locked in when a reader arrives before
/// any negotiation: the oldest supported release, narrow mode, no beta, the
/// legacy buffer limit.  The handle is whatever fallback lookup the caller
/// supplies.
pub open spec fn spec_default_record(hwnd: usize) -> LoadInfo {
    LoadInfo {
        m_version: LEGACY_PACKED_VERSION,
        m_hwnd: hwnd,
        m_keep: false,
        m_unicode: false,
        m_beta: 0,
        m_bytes: LEGACY_BUFFER_BYTES,
    }
}

/// What the write-once cell holds after a negotiation attempt against the
/// contents `before`: the first attempt stores the derived record, any later
/// attempt changes nothing.
pub open spec fn spec_after_negotiate(before: Option<LoadInfo>, raw: LoadInfo) -> Option<
    LoadInfo,
> {
    if before is None {
        Some(spec_negotiate(raw))
    } else {
        before
    }
}

/// Whether a negotiation attempt against the contents `before` succeeds.
pub open spec fn spec_negotiate_succeeds(before: Option<LoadInfo>) -> bool {
    before is None
}

/// Negotiation is write-once: from the empty cell a first attempt succeeds,
/// any second attempt fails, and what the cell then holds is still the first
/// attempt's record.
pub proof fn lemma_negotiate_write_once(raw1: LoadInfo, raw2: LoadInfo)
    ensures
        spec_negotiate_succeeds(None),
        !spec_negotiate_succeeds(spec_after_negotiate(None, raw1)),
        spec_after_negotiate(spec_after_negotiate(None, raw1), raw2) == Some(
            spec_negotiate(raw1),
        ),
{
}

/// The process-wide, write-once store of the negotiated record.
pub struct CapabilityState {
    record: Option<LoadInfo>,
}

impl CapabilityState {
    /// The record held so far, if any.
    pub closed spec fn stored(&self) -> Option<LoadInfo> {
        self.record
    }

    /// A fresh state holding no record yet.
    pub fn new() -> (s: Self)
        ensures
            s.stored() is None,
    {
        CapabilityState { record: None }
    }

    /// Whether a record has been locked in already.
    pub fn is_negotiated(&self) -> (b: bool)
        ensures
            b == (self.stored() is Some),
    {
        self.record.is_some()
    }

    /// Derives the capability record from the raw host record and locks it
    /// in.  Succeeds exactly once; any later call fails and leaves the first
    /// record in place.
    pub fn negotiate(&mut self, raw: LoadInfo) -> (r: Result<LoadInfo, NegotiateError>)
        ensures
            final(self).stored() == spec_after_negotiate(old(self).stored(), raw),
            r is Ok <==> spec_negotiate_succeeds(old(self).stored()),
            r matches Ok(rec) ==> rec == spec_negotiate(raw),
            r is Err ==> r == Err::<LoadInfo, NegotiateError>(NegotiateError::AlreadyNegotiated),
    {
        if self.record.is_some() {
            return Err(NegotiateError::AlreadyNegotiated);
        }
        let v = fix_m_version(raw.m_version);
        let major = v & 0xFFFF;
        let minor = (v >> 16) & 0xFFFF;
        proof {
            crate::version::lemma_version_fields_bounded(v);
        }
        let rec = LoadInfo {
            m_version: v,
            m_hwnd: raw.m_hwnd,
            m_keep: raw.m_keep,
            m_unicode: major >= 7,
            m_beta: if major > 7 || (major == 7 && minor >= 51) {
                raw.m_beta
            } else {
                0
            },
            m_bytes: if major > 7 || (major == 7 && minor >= 64) {
                raw.m_bytes
            } else {
                LEGACY_BUFFER_BYTES
            },
        };
        self.record = Some(rec);
        Ok(rec)
    }

    /// Returns the negotiated record; if none was negotiated yet, locks in
    /// the conservative default built around the supplied fallback handle, so
    /// that every reader observes one immutable record.
    pub fn get_loadinfo(&mut self, fallback_hwnd: usize) -> (r: LoadInfo)
        ensures
            old(self).stored() matches Some(rec) ==> r == rec,
            old(self).stored() is None ==> r == spec_default_record(fallback_hwnd),
            final(self).stored() == Some(r),
    {
        match self.record {
            Some(rec) => rec,
            None => {
                let rec = LoadInfo {
                    m_version: LEGACY_PACKED_VERSION,
                    m_hwnd: fallback_hwnd,
                    m_keep: false,
                    m_unicode: false,
                    m_beta: 0,
                    m_bytes: LEGACY_BUFFER_BYTES,
                };
                self.record = Some(rec);
                rec
            },
        }
    }
}

/// The host's reasons for unloading the plugin.
#[derive(Clone, Copy, Debug, PartialEq, Eq, Structural)]
pub enum UnloadReason {
    ManualUnload,
    Timeout,
    Exit,
}

/// The status returned to the host's unload callback: zero for a manual
/// unload and for host shutdown; nonzero for the idle-timeout reason, which
/// tells the host to keep the plugin loaded.
pub fn unload_response(reason: UnloadReason) -> (r: i32)
    ensures
        reason == UnloadReason::Timeout ==> r == 1,
        reason != UnloadReason::Timeout ==> r == 0,
{
    match reason {
        UnloadReason::ManualUnload => 0,
        UnloadReason::Timeout => 1,
        UnloadReason::Exit => 0,
    }
}

} // verus!
