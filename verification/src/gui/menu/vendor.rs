use vstd::prelude::*;

use super::{key_option, MenuKey};
use crate::run_state::VendorMode;

verus! {

/// What the vendor screen made of the last key press.
#[derive(PartialEq, Eq, Structural, Copy, Clone, Debug)]
pub enum VendorResult {
    NoResponse,
    Cancel,
    Sell,
    BuyMode,
    SellMode,
    Buy,
}

/// The vendor screen's answer, with the line chosen. Space switches to the
/// other mode, Escape cancels, and the letter of one of the `count` lines
/// listed buys that line (buy mode) or sells it (sell mode).
pub open spec fn vendor_answer(mode: VendorMode, key: Option<MenuKey>, count: int) -> (VendorResult, Option<int>) {
    match key {
        None => (VendorResult::NoResponse, None),
        Some(MenuKey::Space) => match mode {
            VendorMode::Buy => (VendorResult::SellMode, None),
            VendorMode::Sell => (VendorResult::BuyMode, None),
        },
        Some(MenuKey::Escape) => (VendorResult::Cancel, None),
        Some(k) => {
            let s = key_option(k);
            if s > -1 && s < count {
                match mode {
                    VendorMode::Buy => (VendorResult::Buy, Some(s)),
                    VendorMode::Sell => (VendorResult::Sell, Some(s)),
                }
            } else {
                (VendorResult::NoResponse, None)
            }
        },
    }
}

/// Returns the vendor screen's answer to a key press, and the index of the
/// line it chose.
pub fn show_vendor_menu(mode: VendorMode, key: Option<MenuKey>, count: i32) -> (r: (VendorResult, Option<usize>))
    ensures
        ({
            let a = vendor_answer(mode, key, count as int);
            &&& r.0 == a.0
            &&& r.1 is Some <==> a.1 is Some
            &&& r.1 is Some ==> r.1->0 as int == a.1->0
        }),
{
    match key {
        None => (VendorResult::NoResponse, None),
        Some(MenuKey::Space) => match mode {
            VendorMode::Buy => (VendorResult::SellMode, None),
            VendorMode::Sell => (VendorResult::BuyMode, None),
        },
        Some(MenuKey::Escape) => (VendorResult::Cancel, None),
        Some(k) => {
            let selection: i32 = match k {
                MenuKey::Letter { index } => index,
                _ => -1,
            };
            if selection > -1 && selection < count {
                match mode {
                    VendorMode::Buy => (VendorResult::Buy, Some(selection as usize)),
                    VendorMode::Sell => (VendorResult::Sell, Some(selection as usize)),
                }
            } else {
                (VendorResult::NoResponse, None)
            }
        },
    }
}

} // verus!
