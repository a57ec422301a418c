use vstd::prelude::*;
use crate::json::{Json, JsonV};
use crate::text::{chars_of, chars_range, concat, pad_right, pad_spec, push_char, string_of};
use super::app::ListState;

verus! {

/// `s` cut to at most `max` characters, a cut text ending in `…`.
pub open spec fn fit_spec(s: Seq<char>, max: nat) -> Seq<char> {
    if s.len() <= max {
        s
    } else if max == 0 {
        Seq::empty()
    } else {
        s.take(max - 1).push('\u{2026}')
    }
}

/// Cuts `s` to at most `max` characters, marking a cut with `…`.
pub fn fit(s: &str, max: usize) -> (r: String)
    ensures
        r@ == fit_spec(s@, max as nat),
{
    let v = chars_of(s);
    if v.len() <= max {
        return s.to_owned();
    }
    if max == 0 {
        return String::new();
    }
    let head = chars_range(&v, 0, max - 1);
    let mut out = string_of(head.as_slice());
    push_char(&mut out, '\u{2026}');
    proof {
        assert(head@ =~= s@.take(max - 1));
    }
    out
}

/// Left-aligns `s` in a field of `width` characters.
pub fn pad(s: &str, width: usize) -> (r: String)
    ensures
        r@ == pad_spec(s@, width as nat),
{
    pad_right(s, width)
}

/// The text shown in place of a list: its error, a loading note, or a note
/// that it is empty.
pub open spec fn status_line_spec(l: ListState) -> Option<Seq<char>> {
    match l.error {
        Some(e) => Some("Error: "@ + e@),
        None => if l.loading {
            Some("Loading..."@)
        } else if l.items@.len() == 0 {
            Some("(empty)"@)
        } else {
            None
        },
    }
}

/// The text shown in place of a list, if the list is not to be shown.
pub fn status_line(list: &ListState) -> (r: Option<String>)
    ensures
        match r {
            Some(s) => status_line_spec(*list) == Some(s@),
            None => status_line_spec(*list) is None,
        },
{
    proof {
        reveal_strlit("Error: ");
        reveal_strlit("Loading...");
        reveal_strlit("(empty)");
    }
    match &list.error {
        Some(e) => Some(concat("Error: ", e.as_str())),
        None => {
            if list.loading {
                Some("Loading...".to_owned())
            } else if list.items.len() == 0 {
                Some("(empty)".to_owned())
            } else {
                None
            }
        },
    }
}

/// `a - b`, or 0 when `b` is larger (`saturating_sub`).
pub open spec fn sat_sub(a: int, b: int) -> int {
    if a > b {
        a - b
    } else {
        0
    }
}

/// The rows `start..end` of a list of `len` rows that fit in `capacity`
/// lines, keeping the cursor in view (centered where the list allows).
pub open spec fn window_spec(len: nat, cursor: nat, capacity: nat) -> (int, int) {
    if len == 0 || capacity == 0 {
        (0, 0)
    } else {
        let a = sat_sub(cursor as int, (capacity / 2) as int);
        let b = sat_sub(len as int, capacity as int);
        let start = if a < b {
            a
        } else {
            b
        };
        let end = if start + capacity < len {
            start + capacity
        } else {
            len as int
        };
        (start, end)
    }
}

/// The range of rows of `list` shown in `capacity` lines.
pub fn visible_window(list: &ListState, capacity: usize) -> (r: (usize, usize))
    ensures
        (r.0 as int, r.1 as int) == window_spec(list.items@.len(), list.cursor as nat, capacity as nat),
        r.0 <= r.1 <= list.items@.len(),
{
    let len = list.items.len();
    if len == 0 || capacity == 0 {
        return (0, 0);
    }
    let a = list.cursor.saturating_sub(capacity / 2);
    let b = len.saturating_sub(capacity);
    let start = if a < b {
        a
    } else {
        b
    };
    let end = if start < len && capacity < len - start {
        start + capacity
    } else {
        len
    };
    (start, end)
}

/// The text of a string field of a row, or `default`.
pub open spec fn field_or(j: JsonV, key: Seq<char>, default: Seq<char>) -> Seq<char> {
    match j.str_field(key) {
        Some(s) => s,
        None => default,
    }
}

fn field_text_or(j: &Json, key: &str, default: &str) -> (r: String)
    ensures
        r@ == field_or(j.view_json(), key@, default@),
{
    match j.str_field(key) {
        Some(s) => s.to_owned(),
        None => default.to_owned(),
    }
}

/// Width of the name column of the group list in a box `width` wide.
pub open spec fn rg_name_width_spec(width: int) -> int {
    let inner = sat_sub(width, 2);
    let w = sat_sub(inner, 20int);
    if w > 8 {
        w
    } else {
        8
    }
}

pub fn rg_name_width(width: u16) -> (r: usize)
    ensures
        r as int == rg_name_width_spec(width as int),
{
    let inner = (width as usize).saturating_sub(2);
    let w = inner.saturating_sub(18 + 2);
    if w > 8 {
        w
    } else {
        8
    }
}

/// One line of the group list: name and location in their columns.
pub open spec fn rg_row_spec(row: JsonV, name_w: nat) -> Seq<char> {
    pad_spec(fit_spec(field_or(row, "name"@, "?"@), name_w), name_w) + "  "@ + fit_spec(
        field_or(row, "location"@, ""@),
        18,
    )
}

pub fn rg_row_line(row: &Json, name_w: usize) -> (r: String)
    ensures
        r@ == rg_row_spec(row.view_json(), name_w as nat),
{
    proof {
        reveal_strlit("name");
        reveal_strlit("?");
        reveal_strlit("location");
        reveal_strlit("");
        reveal_strlit("  ");
    }
    let name = field_text_or(row, "name", "?");
    let loc = field_text_or(row, "location", "");
    let a = pad(fit(name.as_str(), name_w).as_str(), name_w);
    let b = concat(a.as_str(), "  ");
    concat(b.as_str(), fit(loc.as_str(), 18).as_str())
}

/// Width of the name column of the resource list in a box `width` wide.
pub open spec fn resource_name_width_spec(width: int) -> int {
    let inner = sat_sub(width, 2);
    let w = sat_sub(inner, 54int);
    if w > 8 {
        w
    } else {
        8
    }
}

pub fn resource_name_width(width: u16) -> (r: usize)
    ensures
        r as int == resource_name_width_spec(width as int),
{
    let inner = (width as usize).saturating_sub(2);
    let w = inner.saturating_sub(36 + 14 + 2 * 2);
    if w > 8 {
        w
    } else {
        8
    }
}

/// One line of the resource list: name, type and location in columns.
pub open spec fn resource_row_spec(row: JsonV, name_w: nat) -> Seq<char> {
    pad_spec(fit_spec(field_or(row, "name"@, "?"@), name_w), name_w) + "  "@ + pad_spec(
        fit_spec(field_or(row, "type"@, ""@), 36),
        36,
    ) + "  "@ + fit_spec(field_or(row, "location"@, ""@), 14)
}

pub fn resource_row_line(row: &Json, name_w: usize) -> (r: String)
    ensures
        r@ == resource_row_spec(row.view_json(), name_w as nat),
{
    proof {
        reveal_strlit("name");
        reveal_strlit("?");
        reveal_strlit("type");
        reveal_strlit("location");
        reveal_strlit("");
        reveal_strlit("  ");
    }
    let name = field_text_or(row, "name", "?");
    let ty = field_text_or(row, "type", "");
    let loc = field_text_or(row, "location", "");
    let a = pad(fit(name.as_str(), name_w).as_str(), name_w);
    let b = concat(a.as_str(), "  ");
    let c = concat(b.as_str(), pad(fit(ty.as_str(), 36).as_str(), 36).as_str());
    let d = concat(c.as_str(), "  ");
    concat(d.as_str(), fit(loc.as_str(), 14).as_str())
}

/// A rectangle on the screen.
#[derive(Debug, Clone, Copy, PartialEq, Eq, Structural)]
pub struct Area {
    pub x: u16,
    pub y: u16,
    pub width: u16,
    pub height: u16,
}

/// The subscription picker box: at least 60 and at most 120 columns, 4
/// lines less than the screen but at least 8, centered.
pub open spec fn picker_area_spec(a: Area) -> Area {
    let w0 = sat_sub(a.width as int, 8);
    let w1 = if w0 > 60 {
        w0
    } else {
        60
    };
    let w = if w1 < 120 {
        w1
    } else {
        120
    };
    let h0 = sat_sub(a.height as int, 4);
    let h = if h0 > 8 {
        h0
    } else {
        8
    };
    Area {
        x: (a.x + sat_sub(a.width as int, w) / 2) as u16,
        y: (a.y + sat_sub(a.height as int, h) / 2) as u16,
        width: w as u16,
        height: h as u16,
    }
}

pub fn picker_area(a: Area) -> (r: Area)
    requires
        a.x + a.width <= u16::MAX,
        a.y + a.height <= u16::MAX,
    ensures
        r == picker_area_spec(a),
{
    let w = a.width.saturating_sub(8);
    let w = if w > 60 {
        w
    } else {
        60
    };
    let w = if w < 120 {
        w
    } else {
        120
    };
    let h = a.height.saturating_sub(4);
    let h = if h > 8 {
        h
    } else {
        8
    };
    let x = a.x + a.width.saturating_sub(w) / 2;
    let y = a.y + a.height.saturating_sub(h) / 2;
    Area { x, y, width: w, height: h }
}

/// The help box: at most 70 by 18, 4 less than the screen each way, centered.
pub open spec fn help_area_spec(a: Area) -> Area {
    let w0 = sat_sub(a.width as int, 4);
    let w = if 70 < w0 {
        70
    } else {
        w0
    };
    let h0 = sat_sub(a.height as int, 4);
    let h = if 18 < h0 {
        18
    } else {
        h0
    };
    Area {
        x: (a.x + sat_sub(a.width as int, w) / 2) as u16,
        y: (a.y + sat_sub(a.height as int, h) / 2) as u16,
        width: w as u16,
        height: h as u16,
    }
}

pub fn help_area(a: Area) -> (r: Area)
    requires
        a.x + a.width <= u16::MAX,
        a.y + a.height <= u16::MAX,
    ensures
        r == help_area_spec(a),
{
    let w = a.width.saturating_sub(4);
    let w = if 70 < w {
        70
    } else {
        w
    };
    let h = a.height.saturating_sub(4);
    let h = if 18 < h {
        18
    } else {
        h
    };
    let x = a.x + a.width.saturating_sub(w) / 2;
    let y = a.y + a.height.saturating_sub(h) / 2;
    Area { x, y, width: w, height: h }
}

/// Widths of the name and tenant columns of the picker in a box `width`
/// wide: what is left after the fixed columns, split 4 to 3.
pub open spec fn picker_widths_spec(width: int) -> (int, int) {
    let inner = sat_sub(width, 2);
    let fixed: int = 26int;
    let r0 = sat_sub(inner, fixed);
    let remaining = if r0 > 20 {
        r0
    } else {
        20
    };
    let n0 = remaining * 4 / 7;
    let name_w = if n0 > 12 {
        n0
    } else {
        12
    };
    let t0 = sat_sub(remaining, name_w);
    let tenant_w = if t0 > 8 {
        t0
    } else {
        8
    };
    (name_w, tenant_w)
}

pub fn picker_widths(width: u16) -> (r: (usize, usize))
    ensures
        (r.0 as int, r.1 as int) == picker_widths_spec(width as int),
{
    let inner = (width as usize).saturating_sub(2);
    let fixed: usize = 2 + 10 + 8 + 2 * 3;
    let r0 = inner.saturating_sub(fixed);
    let remaining = if r0 > 20 {
        r0
    } else {
        20
    };
    let n0 = remaining * 4 / 7;
    let name_w = if n0 > 12 {
        n0
    } else {
        12
    };
    let t0 = remaining.saturating_sub(name_w);
    let tenant_w = if t0 > 8 {
        t0
    } else {
        8
    };
    (name_w, tenant_w)
}

} // verus!

verus! {

/// The first eight bytes of an id, or all of it when it is shorter.
pub open spec fn short_id_spec(id: Seq<char>) -> Seq<char> {
    let b = vstd::utf8::encode_utf8(id);
    if crate::output::byte_len(id) >= 8 {
        vstd::utf8::decode_utf8(b.subrange(0, 8))
    } else {
        id
    }
}

/// The first eight bytes of an id (`&id[..8]` when the id is that long).
pub fn short_id(id: &str) -> (r: String)
    requires
        crate::output::byte_len(id@) >= 8 ==> vstd::utf8::is_char_boundary(
            vstd::utf8::encode_utf8(id@),
            8,
        ),
    ensures
        r@ == short_id_spec(id@),
{
    if id.len() >= 8 {
        let (head, _) = id.split_at(8);
        proof {
            vstd::utf8::encode_utf8_decode_utf8(head@);
        }
        head.to_owned()
    } else {
        id.to_owned()
    }
}

/// The tenant shown for a subscription: its display name, else its
/// default domain, else nothing.
pub open spec fn tenant_label(row: JsonV) -> Seq<char> {
    match row.str_field("tenantDisplayName"@) {
        Some(t) => t,
        None => field_or(row, "tenantDefaultDomain"@, ""@),
    }
}

/// One line of the subscription picker: a star on the active subscription,
/// profile, name, tenant and the start of the id in their columns.
pub open spec fn picker_row_spec(row: JsonV, active_id: Seq<char>, name_w: nat, tenant_w: nat) -> Seq<char> {
    let sub_id = field_or(row, "id"@, ""@);
    let mark = if sub_id == active_id {
        "*"@
    } else {
        " "@
    };
    mark + " "@ + pad_spec(fit_spec(field_or(row, "profile"@, "-"@), 10), 10) + "  "@ + pad_spec(
        fit_spec(field_or(row, "name"@, ""@), name_w),
        name_w,
    ) + "  "@ + pad_spec(fit_spec(tenant_label(row), tenant_w), tenant_w) + "  "@ + short_id_spec(
        sub_id,
    )
}

pub fn picker_row_line(row: &Json, active_id: &str, name_w: usize, tenant_w: usize) -> (r: String)
    requires
        ({
            let id = field_or(row.view_json(), "id"@, ""@);
            crate::output::byte_len(id) >= 8 ==> vstd::utf8::is_char_boundary(
                vstd::utf8::encode_utf8(id),
                8,
            )
        }),
    ensures
        r@ == picker_row_spec(row.view_json(), active_id@, name_w as nat, tenant_w as nat),
{
    proof {
        reveal_strlit("id");
        reveal_strlit("");
        reveal_strlit("*");
        reveal_strlit(" ");
        reveal_strlit("  ");
        reveal_strlit("profile");
        reveal_strlit("-");
        reveal_strlit("name");
        reveal_strlit("tenantDisplayName");
        reveal_strlit("tenantDefaultDomain");
    }
    let sub_id = field_text_or(row, "id", "");
    let profile = field_text_or(row, "profile", "-");
    let name = field_text_or(row, "name", "");
    let tenant = match row.str_field("tenantDisplayName") {
        Some(t) => t.to_owned(),
        None => field_text_or(row, "tenantDefaultDomain", ""),
    };
    let mark = if crate::text::str_eq(sub_id.as_str(), active_id) {
        "*"
    } else {
        " "
    };
    let a = concat(mark, " ");
    let b = concat(a.as_str(), pad(fit(profile.as_str(), 10).as_str(), 10).as_str());
    let c = concat(b.as_str(), "  ");
    let d = concat(c.as_str(), pad(fit(name.as_str(), name_w).as_str(), name_w).as_str());
    let e = concat(d.as_str(), "  ");
    let f = concat(e.as_str(), pad(fit(tenant.as_str(), tenant_w).as_str(), tenant_w).as_str());
    let g = concat(f.as_str(), "  ");
    concat(g.as_str(), short_id(sub_id.as_str()).as_str())
}

} // verus!
