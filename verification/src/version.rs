//! Correction of the garbled packed version numbers that old host releases
//! report.
//!
//! A packed version stores the major version in its low 16 bits and the minor
//! version in its high 16 bits.  Two historical defects are repaired: releases
//! with major version 6 reported minor versions 1 and 2 unscaled ("6.01" for
//! "6.10"), and a disjoint set of releases reported their major version as 0.

use vstd::prelude::*;

verus! {

/// The major version held in the low 16 bits of a packed version.
pub open spec fn version_major(v: u32) -> u32 {
    v & 0xFFFF
}

/// The minor version held in the high 16 bits of a packed version.
pub open spec fn version_minor(v: u32) -> u32 {
    (v >> 16) & 0xFFFF
}

/// Packs a major and a minor version into the 32-bit form the host uses.
pub open spec fn pack_version(major: u32, minor: u32) -> u32
    recommends
        major < 0x10000,
        minor < 0x10000,
{
    (minor << 16) | major
}

/// The corrected major version: releases that reported major 0 were really
/// major 6 (minor at most 3) or major 5 (any larger minor).
pub open spec fn corrected_major(major: u32, minor: u32) -> u32 {
    if major == 0 {
        if minor <= 3 {
            6
        } else {
            5
        }
    } else {
        major
    }
}

/// The corrected minor version: the releases reported as 6.1 and 6.2, and
/// those reported as 0.8 and 0.9, carried a minor version unscaled by ten.
pub open spec fn corrected_minor(major: u32, minor: u32) -> u32 {
    if major == 6 && minor <= 2 {
        (minor * 10) as u32
    } else if major == 0 && 8 <= minor < 10 {
        (minor * 10) as u32
    } else {
        minor
    }
}

/// The corrected packed version: both fields repaired and repacked.
pub open spec fn spec_fix_version(v: u32) -> u32 {
    pack_version(
        corrected_major(version_major(v), version_minor(v)),
        corrected_minor(version_major(v), version_minor(v)),
    )
}

/// The two fields of a packed version fit in 16 bits.
pub proof fn lemma_version_fields_bounded(v: u32)
    ensures
        version_major(v) < 0x10000,
        version_minor(v) < 0x10000,
{
    assert(v & 0xFFFF < 0x10000) by (bit_vector);
    assert((v >> 16) & 0xFFFF < 0x10000) by (bit_vector);
}

/// Packing two 16-bit fields and unpacking them returns the fields.
pub proof fn lemma_pack_version_fields(major: u32, minor: u32)
    requires
        major < 0x10000,
        minor < 0x10000,
    ensures
        version_major(pack_version(major, minor)) == major,
        version_minor(pack_version(major, minor)) == minor,
{
    assert(major < 0x10000 && minor < 0x10000 ==> ((minor << 16) | major) & 0xFFFF == major)
        by (bit_vector);
    assert(major < 0x10000 && minor < 0x10000 ==> (((minor << 16) | major) >> 16) & 0xFFFF
        == minor) by (bit_vector);
}

/// Corrects a garbled packed version number reported by an old host release.
pub fn fix_m_version(m_version: u32) -> (r: u32)
    ensures
        r == spec_fix_version(m_version),
        version_major(r) == corrected_major(version_major(m_version), version_minor(m_version)),
        version_minor(r) == corrected_minor(version_major(m_version), version_minor(m_version)),
{
    let mut major = m_version & 0xFFFF;
    let mut minor = (m_version >> 16) & 0xFFFF;
    proof {
        lemma_version_fields_bounded(m_version);
    }

    if major == 6 && minor <= 2 {
        minor = minor * 10;
    }

    if major == 0 {
        if minor <= 3 {
            major = 6;
        } else {
            major = 5;
            if minor < 10 && minor >= 8 {
                minor = minor * 10;
            }
        }
    }

    proof {
        lemma_pack_version_fields(major, minor);
    }
    (minor << 16) | major
}

/// For major version 6 with minor version 1 or 2, correction scales the minor
/// version by ten and keeps the major version.
pub proof fn lemma_correct_major6_scales_minor(v: u32)
    requires
        version_major(v) == 6,
        version_minor(v) == 1 || version_minor(v) == 2,
    ensures
        version_major(spec_fix_version(v)) == 6,
        version_minor(spec_fix_version(v)) == version_minor(v) * 10,
{
    lemma_version_fields_bounded(v);
    lemma_pack_version_fields(
        corrected_major(version_major(v), version_minor(v)),
        corrected_minor(version_major(v), version_minor(v)),
    );
}

/// For major version 0 with minor version at most 3, correction restores
/// major version 6 and keeps the minor version.
pub proof fn lemma_correct_major0_small_minor(v: u32)
    requires
        version_major(v) == 0,
        version_minor(v) <= 3,
    ensures
        version_major(spec_fix_version(v)) == 6,
        version_minor(spec_fix_version(v)) == version_minor(v),
{
    lemma_version_fields_bounded(v);
    lemma_pack_version_fields(
        corrected_major(version_major(v), version_minor(v)),
        corrected_minor(version_major(v), version_minor(v)),
    );
}

/// For major version 0 with minor version 8 or 9, correction restores major
/// version 5 and scales the minor version by ten.
pub proof fn lemma_correct_major0_both_defects(v: u32)
    requires
        version_major(v) == 0,
        8 <= version_minor(v) < 10,
    ensures
        version_major(spec_fix_version(v)) == 5,
        version_minor(spec_fix_version(v)) == version_minor(v) * 10,
{
    lemma_version_fields_bounded(v);
    lemma_pack_version_fields(
        corrected_major(version_major(v), version_minor(v)),
        corrected_minor(version_major(v), version_minor(v)),
    );
}

/// For major version 0 with a minor version above 9, such as the releases
/// reported as 0.81, 0.82 and 0.91, correction restores major version 5 and
/// keeps the minor version.
pub proof fn lemma_correct_major0_large_minor(v: u32)
    requires
        version_major(v) == 0,
        version_minor(v) >= 10,
    ensures
        version_major(spec_fix_version(v)) == 5,
        version_minor(spec_fix_version(v)) == version_minor(v),
{
    lemma_version_fields_bounded(v);
    lemma_pack_version_fields(
        corrected_major(version_major(v), version_minor(v)),
        corrected_minor(version_major(v), version_minor(v)),
    );
}

} // verus!
