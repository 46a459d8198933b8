//! First-run choices: the models offered for a provider, and the keyboard
//! pickers and login waits that present them.
pub mod account;

use crate::render::pipeline::is_control;
use crate::text::{chars_of, eq_chars, eq_str, extend_chars, lemma_text_lt_order, string_of, text_lt, text_lt_exec, trim};
use vstd::prelude::*;

verus! {

broadcast use vstd::string::group_string_axioms;

/// A model offered in the picker: its id and the label shown.
#[derive(Clone, Debug, PartialEq, Eq)]
pub struct ModelChoice {
    pub id: String,
    pub label: String,
}

/// A choice as plain values.
pub open spec fn choice_view(c: ModelChoice) -> (Seq<char>, Seq<char>) {
    (c.id@, c.label@)
}

/// The choices as plain values.
pub open spec fn choice_views(s: Seq<ModelChoice>) -> Seq<(Seq<char>, Seq<char>)> {
    s.map_values(|c: ModelChoice| choice_view(c))
}

/// Order of the picker: by label, then by id.
pub open spec fn shown_before(a: (Seq<char>, Seq<char>), b: (Seq<char>, Seq<char>)) -> bool {
    text_lt(a.1, b.1) || (a.1 == b.1 && text_lt(a.0, b.0))
}

/// `x` has the smallest label among the choices of its id.
pub open spec fn is_first_of_id(s: Seq<(Seq<char>, Seq<char>)>, x: (Seq<char>, Seq<char>)) -> bool {
    forall|j: int| 0 <= j < s.len() && (#[trigger] s[j]).0 == x.0 ==> !text_lt(s[j].1, x.1)
}

/// Some entry of `r` has the id `id`.
pub open spec fn lists_id(r: Seq<(Seq<char>, Seq<char>)>, id: Seq<char>) -> bool {
    exists|k: int| 0 <= k < r.len() && (#[trigger] r[k]).0 == id
}

/// The picker list of `input`: one choice per id, the one with the smallest
/// label, in the order of `shown_before` without repetition.
pub open spec fn is_unique_by_id(input: Seq<(Seq<char>, Seq<char>)>, r: Seq<(Seq<char>, Seq<char>)>) -> bool {
    &&& forall|a: int, b: int| 0 <= a < b < r.len() ==> shown_before(#[trigger] r[a], #[trigger] r[b])
    &&& forall|k: int| 0 <= k < r.len() ==> input.contains(#[trigger] r[k]) && is_first_of_id(input, r[k])
    &&& forall|j: int| 0 <= j < input.len() ==> lists_id(r, #[trigger] input[j].0)
}

fn copy_choice(c: &ModelChoice) -> (r: ModelChoice)
    ensures
        choice_view(r) == choice_view(*c),
{
    ModelChoice { id: c.id.clone(), label: c.label.clone() }
}

fn lt_text(a: &String, b: &String) -> (r: bool)
    ensures
        r == text_lt(a@, b@),
{
    let x = chars_of(a.as_str());
    let y = chars_of(b.as_str());
    text_lt_exec(&x, &y)
}

fn eq_text(a: &String, b: &String) -> (r: bool)
    ensures
        r == (a@ == b@),
{
    let x = chars_of(a.as_str());
    let y = chars_of(b.as_str());
    eq_chars(&x, &y)
}

fn before(a: &ModelChoice, b: &ModelChoice) -> (r: bool)
    ensures
        r == shown_before(choice_view(*a), choice_view(*b)),
{
    lt_text(&a.label, &b.label) || (eq_text(&a.label, &b.label) && lt_text(&a.id, &b.id))
}

proof fn lemma_shown_before_order(a: (Seq<char>, Seq<char>), b: (Seq<char>, Seq<char>), c: (Seq<char>, Seq<char>))
    ensures
        !shown_before(a, a),
        shown_before(a, b) ==> !shown_before(b, a),
        a != b ==> shown_before(a, b) || shown_before(b, a),
        shown_before(a, b) && shown_before(b, c) ==> shown_before(a, c),
{
    lemma_text_lt_order(a.1, b.1, c.1);
    lemma_text_lt_order(a.0, b.0, c.0);
    lemma_text_lt_order(b.1, a.1, c.1);
    lemma_text_lt_order(b.0, a.0, c.0);
    lemma_text_lt_order(a.1, c.1, b.1);
    if a.0 == b.0 && a.1 == b.1 {
        assert(a == b);
    }
}

fn first_of_id(choices: &Vec<ModelChoice>, i: usize) -> (best: usize)
    requires
        i < choices@.len(),
    ensures
        best < choices@.len(),
        choice_views(choices@)[best as int].0 == choice_views(choices@)[i as int].0,
        is_first_of_id(choice_views(choices@), choice_views(choices@)[best as int]),
{
    let ghost input = choice_views(choices@);
    let n = choices.len();
    let mut best: usize = i;
    let mut j: usize = 0;
    while j < n
        invariant
            i < n == choices@.len(),
            j <= n,
            best < n,
            input == choice_views(choices@),
            input[best as int].0 == input[i as int].0,
            forall|q: int| 0 <= q < j && (#[trigger] input[q]).0 == input[i as int].0 ==> !text_lt(input[q].1, input[best as int].1),
        decreases n - j,
    {
        let ghost iv = input[i as int];
        let ghost jv = input[j as int];
        let ghost bv = input[best as int];
        assert(iv == choice_view(choices@[i as int]));
        assert(jv == choice_view(choices@[j as int]));
        assert(bv == choice_view(choices@[best as int]));
        if eq_text(&choices[j].id, &choices[i].id) && lt_text(&choices[j].label, &choices[best].label) {
            proof {
                assert forall|q: int| 0 <= q < j + 1 && (#[trigger] input[q]).0 == iv.0 implies !text_lt(input[q].1, jv.1) by {
                    lemma_text_lt_order(input[q].1, jv.1, bv.1);
                    lemma_text_lt_order(jv.1, jv.1, jv.1);
                }
            }
            best = j;
        }
        j += 1;
    }
    best
}

fn has_id(out: &Vec<ModelChoice>, id: &String) -> (r: bool)
    ensures
        r == exists|q: int| 0 <= q < out@.len() && (#[trigger] choice_views(out@)[q]).0 == id@,
{
    let mut k: usize = 0;
    while k < out.len()
        invariant
            k <= out@.len(),
            forall|q: int| 0 <= q < k ==> (#[trigger] choice_views(out@)[q]).0 != id@,
        decreases out.len() - k,
    {
        assert(choice_views(out@)[k as int] == choice_view(out@[k as int]));
        if eq_text(&out[k].id, id) {
            return true;
        }
        k += 1;
    }
    false
}

/// Every pair of the list is in picker order.
pub open spec fn strictly_shown(s: Seq<(Seq<char>, Seq<char>)>) -> bool {
    forall|a: int, b: int| 0 <= a < b < s.len() ==> shown_before(#[trigger] s[a], #[trigger] s[b])
}

fn insert_in_order(out: &mut Vec<ModelChoice>, b: ModelChoice)
    requires
        strictly_shown(choice_views(old(out)@)),
        forall|q: int| 0 <= q < old(out)@.len() ==> (#[trigger] choice_views(old(out)@)[q]) != choice_view(b),
    ensures
        strictly_shown(choice_views(final(out)@)),
        exists|p: int| 0 <= p <= old(out)@.len() && choice_views(final(out)@) == choice_views(old(out)@).take(p) + seq![choice_view(b)] + choice_views(old(out)@).skip(p),
{
    let ghost ov = choice_views(out@);
    let ghost bv = choice_view(b);
    let mut p: usize = 0;
    while p < out.len() && !before(&b, &out[p])
        invariant
            p <= out@.len(),
            ov == choice_views(out@),
            bv == choice_view(b),
            forall|q: int| 0 <= q < p ==> !shown_before(bv, #[trigger] ov[q]),
        decreases out.len() - p,
    {
        assert(ov[p as int] == choice_view(out@[p as int]));
        p += 1;
    }
    proof {
        if p < out@.len() {
            assert(ov[p as int] == choice_view(out@[p as int]));
        }
        assert forall|q: int| 0 <= q < p implies shown_before(#[trigger] ov[q], bv) by {
            lemma_shown_before_order(ov[q], bv, bv);
        }
    }
    out.insert(p, b);
    let ghost nv = choice_views(out@);
    assert(nv =~= ov.take(p as int) + seq![bv] + ov.skip(p as int)) by {
        assert forall|q: int| 0 <= q < nv.len() implies #[trigger] nv[q] == (ov.take(p as int) + seq![bv] + ov.skip(p as int))[q] by {
            assert(nv[q] == choice_view(out@[q]));
        }
    }
    assert forall|a: int, c: int| 0 <= a < c < nv.len() implies shown_before(#[trigger] nv[a], #[trigger] nv[c]) by {
        if c < p {
            assert(nv[a] == ov[a] && nv[c] == ov[c]);
        } else if c == p {
            assert(nv[a] == ov[a]);
        } else if a < p {
            assert(nv[a] == ov[a] && nv[c] == ov[c - 1]);
            lemma_shown_before_order(ov[a], bv, ov[p as int]);
            lemma_shown_before_order(bv, ov[p as int], ov[c - 1]);
            lemma_shown_before_order(ov[a], ov[p as int], ov[c - 1]);
            lemma_shown_before_order(ov[a], bv, ov[c - 1]);
        } else if a == p {
            assert(nv[c] == ov[c - 1]);
            lemma_shown_before_order(bv, ov[p as int], ov[c - 1]);
        } else {
            assert(nv[a] == ov[a - 1] && nv[c] == ov[c - 1]);
        }
    }
}

/// The models of a provider, one per id (the one with the smallest label),
/// ordered by label and then id.
pub fn unique_models_by_id(choices: Vec<ModelChoice>) -> (r: Vec<ModelChoice>)
    ensures
        is_unique_by_id(choice_views(choices@), choice_views(r@)),
{
    let ghost input = choice_views(choices@);
    let n = choices.len();
    let mut out: Vec<ModelChoice> = Vec::new();
    let mut i: usize = 0;
    while i < n
        invariant
            i <= n == choices@.len(),
            input == choice_views(choices@),
            strictly_shown(choice_views(out@)),
            forall|k: int| 0 <= k < out@.len() ==> input.contains(#[trigger] choice_views(out@)[k]) && is_first_of_id(input, choice_views(out@)[k]),
            forall|j: int| 0 <= j < i ==> lists_id(choice_views(out@), #[trigger] input[j].0),
        decreases n - i,
    {
        let best = first_of_id(&choices, i);
        let b = copy_choice(&choices[best]);
        let ghost bv = choice_view(b);
        assert(bv == input[best as int]);
        let ghost ov = choice_views(out@);
        if !has_id(&out, &b.id) {
            proof {
                assert forall|q: int| 0 <= q < ov.len() implies #[trigger] ov[q] != bv by {
                    assert(ov[q].0 != bv.0);
                }
            }
            insert_in_order(&mut out, b);
            let ghost nv = choice_views(out@);
            let ghost p = choose|p: int| 0 <= p <= ov.len() && nv == ov.take(p) + seq![bv] + ov.skip(p);
            assert(nv == ov.take(p) + seq![bv] + ov.skip(p));
            assert forall|k: int| 0 <= k < nv.len() implies input.contains(#[trigger] nv[k]) && is_first_of_id(input, nv[k]) by {
                if k < p {
                    assert(nv[k] == ov[k]);
                } else if k > p {
                    assert(nv[k] == ov[k - 1]);
                } else {
                    assert(nv[k] == bv);
                    assert(input[best as int] == bv);
                }
            }
            assert forall|j: int| 0 <= j < i + 1 implies lists_id(nv, #[trigger] input[j].0) by {
                if j == i {
                    assert(nv[p].0 == input[j].0);
                } else {
                    assert(lists_id(ov, input[j].0));
                    let k1 = choose|k1: int| 0 <= k1 < ov.len() && (#[trigger] ov[k1]).0 == input[j].0;
                    if k1 < p {
                        assert(nv[k1] == ov[k1]);
                    } else {
                        assert(nv[k1 + 1] == ov[k1]);
                    }
                }
            }
        } else {
            assert forall|j: int| 0 <= j < i + 1 implies lists_id(ov, #[trigger] input[j].0) by {
                if j == i {
                    let q = choose|q: int| 0 <= q < ov.len() && (#[trigger] ov[q]).0 == bv.0;
                    assert(ov[q].0 == input[j].0);
                }
            }
        }
        i += 1;
    }
    out
}

/// A key as the pickers and login waits read it.
#[derive(Clone, Copy, Debug, PartialEq, Eq, Structural)]
pub enum PickerKey {
    Up,
    Down,
    Home,
    End,
    Enter,
    Esc,
    Char(char),
    Other,
}

/// One key event: the key, whether Control was held, and whether it is a release.
#[derive(Clone, Copy, Debug, PartialEq, Eq, Structural)]
pub struct KeyPress {
    pub key: PickerKey,
    pub control: bool,
    pub release: bool,
}

/// Escape or Control+C, pressed (not released), cancels a login wait.
pub open spec fn is_cancel(press: KeyPress) -> bool {
    !press.release && (press.key == PickerKey::Esc || (press.key == PickerKey::Char('c') && press.control))
}

/// See `is_cancel`.
pub fn cancels_authentication(press: KeyPress) -> (r: bool)
    ensures
        r == is_cancel(press),
{
    if press.release {
        return false;
    }
    match press.key {
        PickerKey::Esc => true,
        PickerKey::Char(c) => c == 'c' && press.control,
        _ => false,
    }
}

/// What a picker does with a key.
#[derive(Clone, Copy, Debug, PartialEq, Eq, Structural)]
pub enum PickerStep {
    /// Keep showing the picker with this row highlighted.
    Highlight(usize),
    /// The user chose this row.
    Chosen(usize),
    /// The user went back.
    Back,
}

/// Up/`k` and Down/`j` move by one within the rows, Home and End jump to
/// the ends, Enter chooses, Escape goes back; releases and other keys change
/// nothing.
pub open spec fn picker_step_of(selected: usize, rows: usize, press: KeyPress) -> PickerStep {
    if press.release {
        PickerStep::Highlight(selected)
    } else {
        match press.key {
            PickerKey::Up => PickerStep::Highlight(if selected >= 1 { (selected - 1) as usize } else { 0 }),
            PickerKey::Down => PickerStep::Highlight(if selected + 1 < rows { (selected + 1) as usize } else { (rows - 1) as usize }),
            PickerKey::Home => PickerStep::Highlight(0),
            PickerKey::End => PickerStep::Highlight((rows - 1) as usize),
            PickerKey::Enter => PickerStep::Chosen(selected),
            PickerKey::Esc => PickerStep::Back,
            PickerKey::Char(c) => if c == 'k' {
                PickerStep::Highlight(if selected >= 1 { (selected - 1) as usize } else { 0 })
            } else if c == 'j' {
                PickerStep::Highlight(if selected + 1 < rows { (selected + 1) as usize } else { (rows - 1) as usize })
            } else {
                PickerStep::Highlight(selected)
            },
            PickerKey::Other => PickerStep::Highlight(selected),
        }
    }
}

/// See `picker_step_of`. The highlighted or chosen row is always a row.
pub fn picker_step(selected: usize, rows: usize, press: KeyPress) -> (r: PickerStep)
    requires
        selected < rows,
    ensures
        r == picker_step_of(selected, rows, press),
        r matches PickerStep::Highlight(s) ==> s < rows,
        r matches PickerStep::Chosen(s) ==> s < rows,
{
    if press.release {
        return PickerStep::Highlight(selected);
    }
    let up = if selected >= 1 { selected - 1 } else { 0 };
    let down = if selected + 1 < rows { selected + 1 } else { rows - 1 };
    match press.key {
        PickerKey::Up => PickerStep::Highlight(up),
        PickerKey::Down => PickerStep::Highlight(down),
        PickerKey::Home => PickerStep::Highlight(0),
        PickerKey::End => PickerStep::Highlight(rows - 1),
        PickerKey::Enter => PickerStep::Chosen(selected),
        PickerKey::Esc => PickerStep::Back,
        PickerKey::Char(c) => if c == 'k' {
            PickerStep::Highlight(up)
        } else if c == 'j' {
            PickerStep::Highlight(down)
        } else {
            PickerStep::Highlight(selected)
        },
        PickerKey::Other => PickerStep::Highlight(selected),
    }
}

/// The row highlighted first: `initial`, or the last row when it is past the end.
pub fn initial_selection(initial: usize, rows: usize) -> (r: usize)
    requires
        rows >= 1,
    ensures
        r == if initial < rows { initial } else { (rows - 1) as usize },
{
    if initial < rows {
        initial
    } else {
        rows - 1
    }
}

/// How many rows fit in a terminal `height` cells tall: ten go to the frame
/// and text around them, and at least one row is shown.
pub fn max_visible_rows(height: u16) -> (r: usize)
    ensures
        r == if height > 11 { (height - 10) as usize } else { 1 },
{
    if height > 11 {
        (height - 10) as usize
    } else {
        1
    }
}

/// The rows shown, `start..end`: centred on the selection where possible,
/// never past the last row.
pub open spec fn window_of(selected: usize, rows: usize, max_visible: usize) -> (int, int) {
    let centred = if selected >= max_visible / 2 { selected - max_visible / 2 } else { 0 };
    let last_start = if rows >= max_visible { rows - max_visible } else { 0 };
    let start = if centred < last_start { centred } else { last_start };
    let end = if start + max_visible < rows { start + max_visible } else { rows as int };
    (start, end)
}

/// See `window_of`.
pub fn visible_window(selected: usize, rows: usize, max_visible: usize) -> (r: (usize, usize))
    requires
        selected < rows,
        max_visible >= 1,
    ensures
        r.0 == window_of(selected, rows, max_visible).0,
        r.1 == window_of(selected, rows, max_visible).1,
        r.0 <= selected < r.1 <= rows,
        r.1 - r.0 <= max_visible,
{
    let centred = if selected >= max_visible / 2 { selected - max_visible / 2 } else { 0 };
    let last_start = if rows >= max_visible { rows - max_visible } else { 0 };
    let start = if centred < last_start { centred } else { last_start };
    let end = if max_visible < rows - start {
        start + max_visible
    } else {
        rows
    };
    (start, end)
}

/// The gutter before a picker row: an arrow for the highlighted row, blanks
/// of the same width for the others.
pub fn selection_gutter(selected: bool) -> (r: &'static str)
    ensures
        r@.len() == 2,
        r@ == if selected { seq!['\u{203a}', ' '] } else { seq![' ', ' '] },
{
    proof {
        reveal_strlit("\u{203a} ");
        reveal_strlit("  ");
    }
    if selected {
        "\u{203a} "
    } else {
        "  "
    }
}

/// A model's picker row: the id alone when the label is the id, else the
/// label, two spaces and the id.
pub open spec fn model_row_text(label: Seq<char>, id: Seq<char>) -> Seq<char> {
    if label == id {
        id
    } else {
        label + "  "@ + id
    }
}

/// See `model_row_text`.
pub fn model_row(choice: &ModelChoice) -> (r: String)
    ensures
        r@ == model_row_text(choice.label@, choice.id@),
{
    let mut out: Vec<char> = Vec::new();
    if eq_text(&choice.label, &choice.id) {
        extend_chars(&mut out, choice.id.as_str());
    } else {
        extend_chars(&mut out, choice.label.as_str());
        extend_chars(&mut out, "  ");
        extend_chars(&mut out, choice.id.as_str());
    }
    string_of(&out)
}

/// Some model has the id `id`.
pub open spec fn offers_model(models: Seq<ModelChoice>, id: Seq<char>) -> bool {
    exists|k: int| 0 <= k < models.len() && (#[trigger] models[k]).id@ == id
}

/// `r` is the first row whose id is `id` when there is one, else 0.
pub open spec fn is_default_row(models: Seq<ModelChoice>, id: Seq<char>, r: int) -> bool {
    if offers_model(models, id) {
        0 <= r < models.len() && models[r].id@ == id && forall|k: int| 0 <= k < r ==> (#[trigger] models[k]).id@ != id
    } else {
        r == 0
    }
}

/// The row first highlighted in the model picker: that of the provider's
/// default model when it is offered, else the first.
pub fn default_model_index(models: &Vec<ModelChoice>, default: Option<&str>) -> (r: usize)
    ensures
        default is None ==> r == 0,
        default matches Some(d) ==> is_default_row(models@, d@, r as int),
{
    match default {
        None => 0,
        Some(d) => {
            let dv = chars_of(d);
            let mut k: usize = 0;
            while k < models.len()
                invariant
                    k <= models@.len(),
                    default == Some(d),
                    dv@ == d@,
                    forall|q: int| 0 <= q < k ==> (#[trigger] models@[q]).id@ != d@,
                decreases models.len() - k,
            {
                if eq_str(&dv, models[k].id.as_str()) {
                    return k;
                }
                k += 1;
            }
            0
        },
    }
}

/// A key as a one-line text prompt (an API key, a model name) reads it.
#[derive(Clone, Copy, Debug, PartialEq, Eq, Structural)]
pub enum EntryKey {
    Enter,
    Esc,
    Backspace,
    Char(char),
    Other,
}

/// What a text prompt does after a key.
#[derive(Clone, Debug, PartialEq, Eq)]
pub enum EntryStep {
    /// Keep reading.
    Continue,
    /// Submit the typed text without surrounding white space.
    Submit(String),
    /// The user went back.
    Back,
}

/// The typed text after `key`: Backspace drops the last character, a
/// printable character is appended, anything else leaves it.
pub open spec fn entry_after(text: Seq<char>, key: EntryKey) -> Seq<char> {
    match key {
        EntryKey::Backspace => if text.len() > 0 {
            text.drop_last()
        } else {
            text
        },
        EntryKey::Char(c) => if !is_control(c) {
            text.push(c)
        } else {
            text
        },
        _ => text,
    }
}

/// Enter submits the trimmed text once it is not blank, Escape goes back.
pub fn entry_step(text: &mut Vec<char>, key: EntryKey) -> (r: EntryStep)
    ensures
        key == EntryKey::Enter && trim(old(text)@).len() > 0 ==> (r matches EntryStep::Submit(s) && s@ == trim(
            old(text)@,
        )),
        key == EntryKey::Enter && trim(old(text)@).len() == 0 ==> r == EntryStep::Continue,
        key == EntryKey::Esc ==> r == EntryStep::Back,
        key != EntryKey::Enter && key != EntryKey::Esc ==> r == EntryStep::Continue,
        final(text)@ == entry_after(old(text)@, key),
{
    match key {
        EntryKey::Enter => {
            let (a, b) = crate::text::trim_bounds(text, 0, text.len());
            assert(text@.subrange(0, text@.len() as int) =~= text@);
            if a < b {
                EntryStep::Submit(crate::text::string_of_range(text, a, b))
            } else {
                EntryStep::Continue
            }
        },
        EntryKey::Esc => EntryStep::Back,
        EntryKey::Backspace => {
            if text.len() > 0 {
                text.pop();
            }
            EntryStep::Continue
        },
        EntryKey::Char(c) => {
            let code = c as u32;
            if !(code < 0x20 || (0x7F <= code && code <= 0x9F)) {
                text.push(c);
            }
            EntryStep::Continue
        },
        EntryKey::Other => EntryStep::Continue,
    }
}

/// What the secret prompt of the command-line login does after a key.
#[derive(Clone, Debug, PartialEq, Eq)]
pub enum SecretStep {
    /// Keep reading.
    Continue,
    /// Save the typed secret as it is.
    Save(String),
    /// The typed secret is only white space and is refused.
    Refused(crate::credentials::ApiKeyError),
    /// The user cancelled the login.
    Cancel,
}

/// The command-line API-key prompt: Enter on a typed secret saves it
/// untrimmed, or refuses it when it is only white space; Enter on nothing
/// keeps reading; Escape cancels; other keys edit as `entry_after` says.
pub fn secret_entry_step(text: &mut Vec<char>, key: EntryKey) -> (r: SecretStep)
    ensures
        key == EntryKey::Enter && old(text)@.len() > 0 && trim(old(text)@).len() > 0 ==> (r matches SecretStep::Save(s)
            && s@ == old(text)@),
        key == EntryKey::Enter && old(text)@.len() > 0 && trim(old(text)@).len() == 0 ==> r == SecretStep::Refused(
            crate::credentials::ApiKeyError::Empty,
        ),
        key == EntryKey::Enter && old(text)@.len() == 0 ==> r == SecretStep::Continue,
        key == EntryKey::Esc ==> r == SecretStep::Cancel,
        key != EntryKey::Enter && key != EntryKey::Esc ==> r == SecretStep::Continue,
        final(text)@ == entry_after(old(text)@, key),
{
    match key {
        EntryKey::Enter => {
            if text.len() == 0 {
                return SecretStep::Continue;
            }
            let secret = crate::text::string_of(text);
            match crate::credentials::check_api_key(secret.as_str()) {
                Ok(()) => SecretStep::Save(secret),
                Err(e) => SecretStep::Refused(e),
            }
        },
        EntryKey::Esc => SecretStep::Cancel,
        _ => {
            let _ = entry_step(text, key);
            SecretStep::Continue
        },
    }
}

} // verus!
