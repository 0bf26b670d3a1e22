//! Command lines for the image-deployment tool and the reader of its image
//! listing.
use vstd::prelude::*;
use crate::models::{Invocation, WimImageInfo};
use crate::text::{
    chars_of, dec_digits, first_index_of, find_char, has_prefix, lines, opt_view, parse_dec,
    parse_decimal, push_decimal, push_str, split_lines, starts_with, string_of, subslice, trim,
    trim_chars,
};

verus! {

pub ghost struct WimView {
    pub index: nat,
    pub name: Seq<char>,
    pub description: Option<Seq<char>>,
    pub size: Option<Seq<char>>,
}

impl View for WimImageInfo {
    type V = WimView;

    open spec fn view(&self) -> WimView {
        WimView {
            index: self.index as nat,
            name: self.name@,
            description: opt_view(self.description),
            size: opt_view(self.size),
        }
    }
}

/// The second `:`-separated piece of `s`, trimmed (`None` without a colon).
#[verifier::opaque]
pub open spec fn field_value(s: Seq<char>) -> Option<Seq<char>> {
    match first_index_of(s, ':') {
        Some(i) => {
            let rest = s.subrange(i + 1, s.len() as int);
            match first_index_of(rest, ':') {
                Some(j) => Some(trim(rest.subrange(0, j))),
                None => Some(trim(rest)),
            }
        },
        None => None,
    }
}

pub ghost struct WimScan {
    pub done: Seq<WimView>,
    pub current: Option<WimView>,
}

/// One trimmed line of the listing: `Index :` closes the current image and
/// opens a new one when its value reads as a number; `Name :`,
/// `Description :` and `Size :` fill the open image.
#[verifier::opaque]
pub open spec fn wim_step(st: WimScan, line: Seq<char>) -> WimScan {
    let t = trim(line);
    if has_prefix(t, "Index :"@) {
        let done = match st.current {
            Some(c) => st.done.push(c),
            None => st.done,
        };
        let current = match field_value(t) {
            Some(v) => match parse_dec(v, u32::MAX as nat) {
                Some(idx) => Some(WimView { index: idx, name: Seq::empty(), description: None, size: None }),
                None => None,
            },
            None => None,
        };
        WimScan { done, current }
    } else {
        match st.current {
            Some(c) => {
                let v = field_value(t);
                let c2 = if has_prefix(t, "Name :"@) && v is Some {
                    WimView { name: v.unwrap(), ..c }
                } else if has_prefix(t, "Description :"@) && v is Some {
                    WimView { description: v, ..c }
                } else if has_prefix(t, "Size :"@) && v is Some {
                    WimView { size: v, ..c }
                } else {
                    c
                };
                WimScan { done: st.done, current: Some(c2) }
            },
            None => st,
        }
    }
}

pub open spec fn wim_scan(ls: Seq<Seq<char>>) -> WimScan
    decreases ls.len(),
{
    if ls.len() == 0 {
        WimScan { done: Seq::empty(), current: None }
    } else {
        wim_step(wim_scan(ls.drop_last()), ls.last())
    }
}

pub open spec fn wim_images_of(text: Seq<char>) -> Seq<WimView> {
    let st = wim_scan(lines(text));
    match st.current {
        Some(c) => st.done.push(c),
        None => st.done,
    }
}

fn field_of(s: &[char]) -> (r: Option<Vec<char>>)
    ensures
        match r {
            Some(v) => field_value(s@) == Some(v@),
            None => field_value(s@) is None,
        },
{
    reveal(field_value);
    match find_char(s, ':') {
        Some(i) => {
            let rest = subslice(s, i + 1, s.len());
            match find_char(&rest, ':') {
                Some(j) => Some(trim_chars(&subslice(&rest, 0, j))),
                None => Some(trim_chars(&rest)),
            }
        },
        None => None,
    }
}

spec fn opt_wim(o: Option<WimImageInfo>) -> Option<WimView> {
    match o {
        Some(w) => Some(w@),
        None => None,
    }
}

fn wim_line(done: &mut Vec<WimImageInfo>, current: &mut Option<WimImageInfo>, line: &[char])
    ensures
        ({
            let st = wim_step(
                WimScan { done: old(done)@.map_values(|w: WimImageInfo| w@), current: opt_wim(*old(current)) },
                line@,
            );
            &&& final(done)@.map_values(|w: WimImageInfo| w@) == st.done
            &&& opt_wim(*final(current)) == st.current
        }),
{
    reveal(wim_step);
    let ghost d0 = done@.map_values(|w: WimImageInfo| w@);
    let t = trim_chars(line);
    if starts_with(&t, &chars_of("Index :")) {
        match current.take() {
            Some(c) => {
                done.push(c);
                assert(done@.map_values(|w: WimImageInfo| w@) =~= d0.push(c@));
            },
            None => {},
        }
        *current = match field_of(&t) {
            Some(v) => match parse_decimal(&v, u32::MAX as u64) {
                Some(idx) => Some(
                    WimImageInfo { index: idx as u32, name: String::new(), description: None, size: None },
                ),
                None => None,
            },
            None => None,
        };
        return ;
    }
    match current {
        Some(c) => {
            let v = field_of(&t);
            match v {
                Some(val) => {
                    if starts_with(&t, &chars_of("Name :")) {
                        c.name = string_of(&val);
                    } else if starts_with(&t, &chars_of("Description :")) {
                        c.description = Some(string_of(&val));
                    } else if starts_with(&t, &chars_of("Size :")) {
                        c.size = Some(string_of(&val));
                    }
                },
                None => {},
            }
        },
        None => {},
    }
}

/// The images that an image listing (`/Get-WimInfo`) describes, in order.
pub fn parse_wim_info(text: &str) -> (r: Vec<WimImageInfo>)
    ensures
        r@.map_values(|w: WimImageInfo| w@) == wim_images_of(text@),
{
    let chars = chars_of(text);
    let ls = split_lines(&chars);
    let ghost lv = ls@.map_values(|w: Vec<char>| w@);
    let mut done: Vec<WimImageInfo> = Vec::new();
    let mut current: Option<WimImageInfo> = None;
    let mut i: usize = 0;
    assert(done@.map_values(|w: WimImageInfo| w@) =~= Seq::<WimView>::empty());
    while i < ls.len()
        invariant
            i <= ls.len(),
            lv == ls@.map_values(|w: Vec<char>| w@),
            done@.map_values(|w: WimImageInfo| w@) == wim_scan(lv.subrange(0, i as int)).done,
            opt_wim(current) == wim_scan(lv.subrange(0, i as int)).current,
        decreases ls.len() - i,
    {
        let ghost nxt = lv.subrange(0, i + 1);
        assert(nxt.drop_last() =~= lv.subrange(0, i as int));
        assert(nxt.last() == ls@[i as int]@);
        wim_line(&mut done, &mut current, &ls[i]);
        i = i + 1;
    }
    assert(lv.subrange(0, ls.len() as int) =~= lv);
    let ghost d0 = done@.map_values(|w: WimImageInfo| w@);
    match current {
        Some(c) => {
            done.push(c);
            assert(done@.map_values(|w: WimImageInfo| w@) =~= d0.push(c@));
        },
        None => {},
    }
    done
}

fn owned(s: &str) -> (r: String)
    ensures
        r@ == s@,
{
    s.to_owned()
}

fn prefixed(prefix: &str, value: &str) -> (r: String)
    ensures
        r@ == prefix@ + value@,
{
    let mut t: Vec<char> = Vec::new();
    push_str(&mut t, prefix);
    push_str(&mut t, value);
    string_of(&t)
}

/// The command that lists the images inside the image file `image_path`.
pub fn list_images(image_path: &str) -> (r: Invocation)
    ensures
        r.program@ == "dism"@,
        r.args_view() == seq!["/English"@, "/Get-WimInfo"@, "/WimFile:"@ + image_path@],
        !r.elevated,
{
    let r = Invocation {
        program: owned("dism"),
        args: vec![owned("/English"), owned("/Get-WimInfo"), prefixed("/WimFile:", image_path)],
        elevated: false,
    };
    assert(r.args_view() =~= seq!["/English"@, "/Get-WimInfo"@, "/WimFile:"@ + image_path@]);
    r
}

/// The command that applies image `index` of `image_path` onto the
/// directory `apply_dir`.
pub fn apply_image(image_path: &str, index: u32, apply_dir: &str) -> (r: Invocation)
    ensures
        r.program@ == "dism"@,
        r.args_view() == seq![
            "/English"@,
            "/Apply-Image"@,
            "/ImageFile:"@ + image_path@,
            "/Index:"@ + dec_digits(index as nat),
            "/ApplyDir:"@ + apply_dir@,
        ],
        !r.elevated,
{
    let mut idx: Vec<char> = Vec::new();
    push_str(&mut idx, "/Index:");
    push_decimal(&mut idx, index as u64);
    let r = Invocation {
        program: owned("dism"),
        args: vec![
            owned("/English"),
            owned("/Apply-Image"),
            prefixed("/ImageFile:", image_path),
            string_of(&idx),
            prefixed("/ApplyDir:", apply_dir),
        ],
        elevated: false,
    };
    assert(r.args_view() =~= seq![
        "/English"@,
        "/Apply-Image"@,
        "/ImageFile:"@ + image_path@,
        "/Index:"@ + dec_digits(index as nat),
        "/ApplyDir:"@ + apply_dir@,
    ]);
    r
}

} // verus!
