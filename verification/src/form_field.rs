//! The text of a form field as drawn: its value with a cursor when focused,
//! or its placeholder when empty, and its title.
use vstd::prelude::*;

verus! {

/// The text shown in a field: the value, followed by a block cursor when the
/// field is focused; an empty field shows the cursor alone when focused and
/// the placeholder otherwise.
pub open spec fn display_text(value: Seq<char>, focused: bool, placeholder: Seq<char>) -> Seq<char> {
    if value.len() == 0 {
        if focused {
            seq!['\u{2588}']
        } else {
            placeholder
        }
    } else if focused {
        value.push('\u{2588}')
    } else {
        value
    }
}

/// The title of a field: ` label ` with ` * ` before the end when it is
/// required.
pub open spec fn title_text(label: Seq<char>, required: bool) -> Seq<char> {
    if required {
        " "@ + label + " * "@
    } else {
        " "@ + label + " "@
    }
}

/// The text shown in a field.
pub fn field_display(value: &str, focused: bool, placeholder: &str) -> (out: String)
    ensures
        out@ == display_text(value@, focused, placeholder@),
{
    if value.is_empty() {
        if focused {
            let mut out = String::new();
            crate::text::push_char(&mut out, '\u{2588}');
            assert(out@ =~= seq!['\u{2588}']);
            out
        } else {
            String::from_str(placeholder)
        }
    } else if focused {
        let mut out = String::from_str(value);
        crate::text::push_char(&mut out, '\u{2588}');
        out
    } else {
        String::from_str(value)
    }
}

/// Whether a field's text is drawn dimmed: an empty field that is not
/// focused shows its placeholder dimmed.
pub fn field_dimmed(value: &str, focused: bool) -> (r: bool)
    ensures
        r == (value@.len() == 0 && !focused),
{
    value.is_empty() && !focused
}

/// The title of a field.
pub fn field_title(label: &str, required: bool) -> (out: String)
    ensures
        out@ == title_text(label@, required),
{
    let mut out = String::from_str(" ");
    out.append(label);
    if required {
        out.append(" * ");
    } else {
        out.append(" ");
    }
    out
}

/// A value offered with `Left`/`Right`: `◀ value ▶`.
pub open spec fn selector_text(value: Seq<char>) -> Seq<char> {
    seq!['\u{25c0}', ' '] + value + seq![' ', '\u{25b6}']
}

/// The text of a key choice: the selector when the field is focused and
/// there are keys to choose from, else the value alone.
pub fn choice_display(value: &str, focused: bool, has_choices: bool) -> (out: String)
    ensures
        out@ == if focused && has_choices {
            selector_text(value@)
        } else {
            value@
        },
{
    if focused && has_choices {
        let mut out = String::new();
        crate::text::push_char(&mut out, '\u{25c0}');
        crate::text::push_char(&mut out, ' ');
        out.append(value);
        crate::text::push_char(&mut out, ' ');
        crate::text::push_char(&mut out, '\u{25b6}');
        assert(out@ =~= selector_text(value@));
        out
    } else {
        String::from_str(value)
    }
}

/// A hidden text as drawn: one `*` for each of its `len` units.
pub fn masked(len: usize) -> (s: String)
    ensures
        s@ == Seq::new(len as nat, |i: int| '*'),
{
    let mut s = String::new();
    let mut i: usize = 0;
    while i < len
        invariant
            0 <= i <= len,
            s@ == Seq::new(i as nat, |k: int| '*'),
        decreases len - i,
    {
        crate::text::push_char(&mut s, '*');
        i += 1;
        assert(s@ =~= Seq::new(i as nat, |k: int| '*'));
    }
    s
}

} // verus!
