//! The provinces of the map, known by the colours of the province image.

use vstd::prelude::*;
use vstd::string::StrSliceExecFns;
use crate::block::Block;
use crate::block::strings_view;
use crate::fileset::FileEntry;
use crate::fileset::FileEntryView;
use crate::fileset::FileHandler;
use crate::fileset::path_of;
use crate::index::CodeSet;
use crate::report::report_at;
use crate::report::ErrorKey;
use crate::report::Errors;
use crate::report::ReportView;
use crate::report::Severity;
use crate::text::hex_pair;
use crate::text::spec_hex_pair;
use crate::token::Token;

verus! {

/// The number that stands for a colour: red, green and blue, eight bits each.
pub open spec fn spec_color_code(r: u8, g: u8, b: u8) -> u32 {
    (r as u32 * 65536 + g as u32 * 256 + b as u32) as u32
}

pub fn color_code(r: u8, g: u8, b: u8) -> (code: u32)
    ensures
        code == spec_color_code(r, g, b),
{
    (r as u32) * 65536 + (g as u32) * 256 + (b as u32)
}

/// The colour that a province id names: `x` and three pairs of hexadecimal
/// characters, seven characters in all.
pub open spec fn spec_province_color(key: Seq<char>) -> Option<u32> {
    if key.len() != 7 || key[0] != 'x' {
        None
    } else {
        match (
            spec_hex_pair(key[1], key[2]),
            spec_hex_pair(key[3], key[4]),
            spec_hex_pair(key[5], key[6]),
        ) {
            (Some(r), Some(g), Some(b)) => Some(spec_color_code(r as u8, g as u8, b as u8)),
            _ => None,
        }
    }
}

/// The colour that a province id names.
pub fn province_color(key: &str) -> (r: Option<u32>)
    ensures
        r == spec_province_color(key@),
{
    if key.unicode_len() != 7 {
        return None;
    }
    if key.get_char(0) != 'x' {
        return None;
    }
    let r = hex_pair(key.get_char(1), key.get_char(2));
    let g = hex_pair(key.get_char(3), key.get_char(4));
    let b = hex_pair(key.get_char(5), key.get_char(6));
    match (r, g, b) {
        (Some(r), Some(g), Some(b)) => Some(color_code(r, g, b)),
        _ => None,
    }
}

pub struct Provinces {
    /// The colours in the province image.
    pub colors: CodeSet,
    /// The province image's file, once it is loaded.
    pub provinces_png: Option<FileEntry>,
}

pub open spec fn missing_province(loc: crate::token::Loc) -> ReportView {
    crate::report::warn_at(ErrorKey::MissingItem, loc, "province not found on map"@)
}

/// The colours of the first `n` pixels, added to `acc`.
pub open spec fn pixel_codes(pixels: Seq<(u8, u8, u8)>, n: nat, acc: Set<u32>) -> Set<u32>
    decreases n,
{
    if n == 0 || n > pixels.len() {
        acc
    } else {
        pixel_codes(pixels, (n - 1) as nat, acc).insert(
            spec_color_code(pixels[n - 1].0, pixels[n - 1].1, pixels[n - 1].2),
        )
    }
}

impl Provinces {
    pub fn new() -> (r: Provinces)
        ensures
            r.colors@ == Set::<u32>::empty(),
            r.provinces_png is None,
    {
        Provinces { colors: CodeSet::new(), provinces_png: None }
    }

    /// Whether the map has the province. Without a province image every
    /// province counts as there: single provinces are not reported missing
    /// when the whole map is.
    pub open spec fn spec_is_known(self, key: Seq<char>) -> bool {
        self.provinces_png is None || match spec_province_color(key) {
            Some(code) => self.colors@.contains(code),
            None => false,
        }
    }

    /// Whether the map has the province.
    pub fn is_known(&self, key: &str) -> (r: bool)
        ensures
            r == self.spec_is_known(key@),
    {
        if self.provinces_png.is_none() {
            return true;
        }
        match province_color(key) {
            Some(code) => self.colors.contains(code),
            None => false,
        }
    }

    /// Reports, at `item`, a province that the map does not have.
    pub fn verify_exists_implied(&self, key: &str, item: &Token, errors: &mut Errors)
        ensures
            final(errors)@ == (if self.spec_is_known(key@) {
                old(errors)@
            } else {
                old(errors)@.push(missing_province(item@.loc))
            }),
    {
        if !self.is_known(key) {
            errors.warn(item.loc, ErrorKey::MissingItem, "province not found on map");
        }
    }

    /// Nothing of the provinces needs a check of its own.
    pub fn validate(&self) {
    }
}

impl FileHandler<Vec<(u8, u8, u8)>> for Provinces {
    open spec fn handler_wf(&self) -> bool {
        true
    }

    fn config(&mut self, config: &Block, errors: &mut Errors)
        ensures
            *final(self) == *old(self),
            final(errors)@ == old(errors)@,
    {
    }

    fn subpath(&self) -> (r: Vec<String>)
        ensures
            strings_view(r@) == seq!["map_data"@, "provinces.png"@],
    {
        path_of("map_data", "provinces.png")
    }

    /// Takes the pixels of the province image, each as red, green and blue.
    fn handle_file(
        &mut self,
        entry: &FileEntry,
        file: usize,
        loaded: Vec<(u8, u8, u8)>,
        errors: &mut Errors,
    )
        ensures
            final(errors)@ == old(errors)@,
            final(self).provinces_png is Some,
            final(self).provinces_png->0@ == entry@,
            final(self).colors@ == pixel_codes(loaded@, loaded@.len(), old(self).colors@),
    {
        self.provinces_png = Some(entry.clone());
        let mut i: usize = 0;
        while i < loaded.len()
            invariant
                i <= loaded@.len(),
                self.provinces_png is Some,
                self.provinces_png->0@ == entry@,
                self.colors@ == pixel_codes(loaded@, i as nat, old(self).colors@),
            decreases loaded@.len() - i,
        {
            let p = loaded[i];
            self.colors.insert(color_code(p.0, p.1, p.2));
            i = i + 1;
        }
    }

    fn finalize(&mut self, errors: &mut Errors)
        ensures
            *final(self) == *old(self),
            final(errors)@ == old(errors)@,
    {
    }
}

} // verus!
