//! The table of credential ids: a kind's base plus the id within the kind.

use vstd::prelude::*;

verus! {

/// Base of the ids of education credentials.
pub const EDUCATION: u32 = 1000;

/// Base of the ids of work-experience credentials.
pub const EXPERIENCE: u32 = 2000;

/// Base of the ids of skill credentials.
pub const SKILL: u32 = 3000;

pub const DAPPS_DEVELOPMENT: u8 = 1;

pub const SCRYPTO_PROGRAMMING: u8 = 2;

pub const CRITICAL_THINKING: u8 = 3;

pub const PROBLEM_SOLVING: u8 = 4;

pub const GRAPHIC_DESIGN: u8 = 5;

pub const PHOTOGRAPH: u8 = 6;

pub const ARCHITECTURE: u8 = 7;

pub const BUSINESS_MANAGEMENT: u8 = 8;

pub const DATA_ANALYSIS: u8 = 9;

pub const ACCOUNTING: u8 = 10;

pub const ECONOMIC_UNDERSTANDING: u8 = 11;

pub const DIGITAL_MARKETING: u8 = 12;

pub const LEADERSHIP: u8 = 13;

pub const COMMUNICATION: u8 = 14;

pub const BLOCKCHAIN_DEVELOPER: u8 = 1;

pub const ECONOMIST: u8 = 2;

pub const RESEARCHER: u8 = 3;

pub const GRAPHIC_DESIGNER: u8 = 4;

pub const PHOTOGRAPHER: u8 = 5;

pub const ARCHITECT: u8 = 6;

pub const BUSINESS_MANAGER: u8 = 7;

} // verus!
