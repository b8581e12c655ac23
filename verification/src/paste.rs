//! Where a paste goes: which focused elements accept text, how the System
//! Events report of the focused element reads, and how a paste is confirmed
//! from accessibility snapshots taken before and after it.
use vstd::prelude::*;

use crate::dictionary::{lemma_unique_values_clean, push_unique_exec, unique_values};
use crate::text::{
    chars_of, is_blank, is_blank_str, lemma_split_on_nonempty, parse_i32, parse_i32_chars,
    split_chars, split_on, str_eq, string_from_chars, sviews, trim, trim_chars, vviews,
};
use crate::text_diff::{
    changed_span, range_text, ranges_overlap, span_from, span_location, span_to, utf16_range_text,
    TextRange,
};

verus! {

/// The focused element a paste would go to, as far as accessibility shows it.
#[derive(Debug, Clone)]
pub struct PasteTargetInfo {
    pub pid: Option<i32>,
    pub role: String,
    pub subrole: String,
    /// The element's attribute names, each once.
    pub attributes: Vec<String>,
}

/// The mathematical value of a paste target.
pub ghost struct TargetView {
    pub pid: Option<i32>,
    pub role: Seq<char>,
    pub subrole: Seq<char>,
    pub attributes: Seq<Seq<char>>,
}

impl View for PasteTargetInfo {
    type V = TargetView;

    open spec fn view(&self) -> TargetView {
        TargetView {
            pid: self.pid,
            role: self.role@,
            subrole: self.subrole@,
            attributes: sviews(self.attributes@),
        }
    }
}

pub open spec fn opt_target(t: Option<&PasteTargetInfo>) -> Option<TargetView> {
    match t {
        Some(x) => Some(x@),
        None => None,
    }
}

/// A role of an element that edits text.
pub open spec fn text_input_role(role: Seq<char>) -> bool {
    role == "AXTextArea"@ || role == "AXTextField"@ || role == "AXComboBox"@ || role
        == "AXSearchField"@ || role == "AXTextView"@
}

/// The role of web content.
pub open spec fn web_content_role(role: Seq<char>) -> bool {
    role == "AXWebArea"@
}

pub open spec fn has_attr(t: TargetView, name: Seq<char>) -> bool {
    t.attributes.contains(name)
}

/// The element edits text: by its role, or because it shows a text cursor.
pub open spec fn pasteable(t: TargetView) -> bool {
    text_input_role(t.role) || text_input_role(t.subrole) || has_attr(t, "AXSelectedTextRange"@)
        || has_attr(t, "AXInsertionPointLineNumber"@) || has_attr(t, "AXSelectedTextMarkerRange"@)
        || has_attr(t, "AXEditableAncestor"@)
}

/// The element belongs to this app and this app's own elements are not allowed.
pub open spec fn own_excluded(t: TargetView, own_pid: i32, allow_own: bool) -> bool {
    !allow_own && t.pid == Some(own_pid)
}

pub open spec fn verified_candidate(t: TargetView, own_pid: i32, allow_own: bool) -> bool {
    !own_excluded(t, own_pid, allow_own) && pasteable(t)
}

pub open spec fn web_candidate(t: TargetView, own_pid: i32, allow_own: bool) -> bool {
    !own_excluded(t, own_pid, allow_own) && (web_content_role(t.role) || web_content_role(
        t.subrole,
    ))
}

/// Another app's element of which accessibility shows nothing but the process.
pub open spec fn ambiguous_external(t: TargetView, own_pid: i32) -> bool {
    &&& t.pid matches Some(p) && p != own_pid
    &&& t.role.len() == 0
    &&& t.subrole.len() == 0
    &&& t.attributes.len() == 0
}

pub open spec fn fallback_candidate(t: TargetView, own_pid: i32, allow_own: bool) -> bool {
    web_candidate(t, own_pid, allow_own) || ambiguous_external(t, own_pid)
}

pub open spec fn attemptable(t: TargetView, own_pid: i32, allow_own: bool) -> bool {
    !own_excluded(t, own_pid, allow_own) && (pasteable(t) || fallback_candidate(
        t,
        own_pid,
        allow_own,
    ))
}

/// The process whose manual accessibility is worth switching on: another
/// app's element that does not yet show itself as editable.
pub open spec fn retry_pid(t: Option<TargetView>, own_pid: i32) -> Option<i32> {
    match t {
        Some(x) => if pasteable(x) {
            None
        } else {
            match x.pid {
                Some(p) => if p == own_pid {
                    None
                } else {
                    Some(p)
                },
                None => None,
            }
        },
        None => None,
    }
}

/// `role == name`.
fn role_is(role: &String, name: &str) -> (r: bool)
    ensures
        r == (role@ == name@),
{
    str_eq(role.as_str(), name)
}

/// One of the roles of elements that edit text.
pub fn is_text_input_role(role: &String) -> (r: bool)
    ensures
        r == text_input_role(role@),
{
    role_is(role, "AXTextArea") || role_is(role, "AXTextField") || role_is(role, "AXComboBox")
        || role_is(role, "AXSearchField") || role_is(role, "AXTextView")
}

/// The role of web content.
pub fn is_web_content_role(role: &String) -> (r: bool)
    ensures
        r == web_content_role(role@),
{
    role_is(role, "AXWebArea")
}

impl PasteTargetInfo {
    /// No attribute name occurs twice.
    pub open spec fn wf(&self) -> bool {
        sviews(self.attributes@).no_duplicates()
    }

    /// The element has the attribute `name`.
    pub fn has_attribute(&self, name: &str) -> (r: bool)
        ensures
            r == has_attr(self@, name@),
    {
        let mut i: usize = 0;
        while i < self.attributes.len()
            invariant
                0 <= i <= self.attributes.len(),
                forall|k: int| 0 <= k < i ==> sviews(self.attributes@)[k] != name@,
            decreases self.attributes.len() - i,
        {
            if str_eq(self.attributes[i].as_str(), name) {
                assert(sviews(self.attributes@)[i as int] == name@);
                return true;
            }
            i = i + 1;
        }
        false
    }
}

/// The element edits text, by its role or because it shows a text cursor.
/// (That a shortcut was sent does not show that text went in, so an unclear
/// role needs a cursor.)
pub fn is_pasteable_target(target: &PasteTargetInfo) -> (r: bool)
    ensures
        r == pasteable(target@),
{
    if is_text_input_role(&target.role) || is_text_input_role(&target.subrole) {
        return true;
    }
    target.has_attribute("AXSelectedTextRange") || target.has_attribute(
        "AXInsertionPointLineNumber",
    ) || target.has_attribute("AXSelectedTextMarkerRange") || target.has_attribute(
        "AXEditableAncestor",
    )
}

fn is_own_excluded(target: &PasteTargetInfo, own_pid: i32, allow_own: bool) -> (r: bool)
    ensures
        r == own_excluded(target@, own_pid, allow_own),
{
    !allow_own && match target.pid {
        Some(p) => p == own_pid,
        None => false,
    }
}

/// An editable element that may receive the paste.
pub fn is_verified_paste_candidate(target: &PasteTargetInfo, own_pid: i32, allow_own: bool) -> (r:
    bool)
    ensures
        r == verified_candidate(target@, own_pid, allow_own),
{
    !is_own_excluded(target, own_pid, allow_own) && is_pasteable_target(target)
}

/// An element worth a paste attempt, editable or a fallback candidate.
pub fn is_attemptable_paste_target(target: &PasteTargetInfo, own_pid: i32, allow_own: bool) -> (r:
    bool)
    ensures
        r == attemptable(target@, own_pid, allow_own),
{
    if is_own_excluded(target, own_pid, allow_own) {
        return false;
    }
    is_pasteable_target(target) || is_fallback_paste_candidate(target, own_pid, allow_own)
}

/// Web content, or another app's element that shows nothing but its process.
pub fn is_fallback_paste_candidate(target: &PasteTargetInfo, own_pid: i32, allow_own: bool) -> (r:
    bool)
    ensures
        r == fallback_candidate(target@, own_pid, allow_own),
{
    is_web_content_paste_candidate(target, own_pid, allow_own)
        || is_ambiguous_external_paste_candidate(target, own_pid)
}

/// Web content, unless it is this app's own and that is not allowed.
pub fn is_web_content_paste_candidate(target: &PasteTargetInfo, own_pid: i32, allow_own: bool) -> (r:
    bool)
    ensures
        r == web_candidate(target@, own_pid, allow_own),
{
    if is_own_excluded(target, own_pid, allow_own) {
        return false;
    }
    is_web_content_role(&target.role) || is_web_content_role(&target.subrole)
}

/// Another app's element with no role, subrole or attributes.
pub fn is_ambiguous_external_paste_candidate(target: &PasteTargetInfo, own_pid: i32) -> (r: bool)
    ensures
        r == ambiguous_external(target@, own_pid),
{
    let other_app = match target.pid {
        Some(p) => p != own_pid,
        None => false,
    };
    other_app && target.role.as_str().unicode_len() == 0 && target.subrole.as_str().unicode_len()
        == 0 && target.attributes.len() == 0
}

/// The process whose manual accessibility to switch on before looking again.
pub fn manual_accessibility_retry_pid(target: Option<&PasteTargetInfo>, own_pid: i32) -> (r: Option<
    i32,
>)
    ensures
        r == retry_pid(opt_target(target), own_pid),
{
    let target = match target {
        Some(t) => t,
        None => {
            return None;
        },
    };
    if is_pasteable_target(target) {
        return None;
    }
    let pid = match target.pid {
        Some(p) => p,
        None => {
            return None;
        },
    };
    if pid == own_pid {
        return None;
    }
    Some(pid)
}


/// An element that may receive a paste is also worth a paste attempt.
pub proof fn lemma_verified_candidate_is_attemptable(t: TargetView, own_pid: i32, allow_own: bool)
    requires
        verified_candidate(t, own_pid, allow_own),
    ensures
        attemptable(t, own_pid, allow_own),
{
}

/// When this app's own elements are not allowed, none of them is pasted into,
/// tried, or taken as a fallback.
pub proof fn lemma_own_elements_excluded(t: TargetView, own_pid: i32)
    requires
        t.pid == Some(own_pid),
    ensures
        !verified_candidate(t, own_pid, false),
        !attemptable(t, own_pid, false),
        !fallback_candidate(t, own_pid, false),
{
}

/// An element of this app that shows no role, subrole or attribute is never
/// tried, even when this app's own elements are allowed.
pub proof fn lemma_bare_own_element_never_attempted(t: TargetView, own_pid: i32)
    requires
        t.pid == Some(own_pid),
        t.role.len() == 0,
        t.subrole.len() == 0,
        t.attributes.len() == 0,
    ensures
        !attemptable(t, own_pid, true),
{
    assert(t.subrole =~= t.role);
    assert(!t.attributes.contains("AXSelectedTextRange"@));
    assert(!t.attributes.contains("AXInsertionPointLineNumber"@));
    assert(!t.attributes.contains("AXSelectedTextMarkerRange"@));
    assert(!t.attributes.contains("AXEditableAncestor"@));
    assert(!text_input_role(t.role)) by {
        reveal_strlit("AXTextArea");
        reveal_strlit("AXTextField");
        reveal_strlit("AXComboBox");
        reveal_strlit("AXSearchField");
        reveal_strlit("AXTextView");
    }
    assert(!web_content_role(t.role)) by {
        reveal_strlit("AXWebArea");
    }
}

/// Manual accessibility is only ever switched on for another app whose
/// element does not yet show itself as editable.
pub proof fn lemma_retry_pid_is_other_app(t: Option<TargetView>, own_pid: i32)
    ensures
        retry_pid(t, own_pid) matches Some(p) ==> (p != own_pid && (t matches Some(x) && !pasteable(x)
            && x.pid == Some(p))),
{
}

// --- The System Events report ---------------------------------------------

/// Line `k` of the report, or nothing past the last line. Each line is read
/// trimmed, so this agrees with `str::lines` (which also drops a `\r` before
/// the line break and the empty text after a final one).
pub open spec fn report_line(s: Seq<char>, k: int) -> Seq<char> {
    if 0 <= k < split_on(s, '\n').len() {
        split_on(s, '\n')[k]
    } else {
        Seq::empty()
    }
}

/// The process id the report starts with, if it is a positive number.
pub open spec fn report_pid(s: Seq<char>) -> Option<i32> {
    match parse_i32(trim(report_line(s, 0))) {
        Some(p) => if p > 0 {
            Some(p)
        } else {
            None
        },
        None => None,
    }
}

/// The report read as a paste target: an optional process id line, then
/// role, subrole and the comma-separated attribute names. An empty report,
/// or one that names nothing, gives no target.
pub open spec fn parsed_target(s: Seq<char>) -> Option<TargetView> {
    if is_blank(s) {
        None
    } else {
        let pid = report_pid(s);
        let ri: int = if pid is Some {
            1
        } else {
            0
        };
        let role = trim(report_line(s, ri));
        let subrole = trim(report_line(s, ri + 1));
        let attributes = unique_values(split_on(report_line(s, ri + 2), ','));
        if pid is None && role.len() == 0 && subrole.len() == 0 && attributes.len() == 0 {
            None
        } else {
            Some(TargetView { pid, role, subrole, attributes })
        }
    }
}

/// Piece `k`, or nothing past the last piece.
fn piece_or_empty(pieces: &Vec<Vec<char>>, k: usize) -> (r: Vec<char>)
    ensures
        r@ == (if k < pieces.len() {
            pieces@[k as int]@
        } else {
            Seq::empty()
        }),
{
    if k < pieces.len() {
        pieces[k].clone()
    } else {
        Vec::new()
    }
}

/// The trimmed, non-empty pieces, each once, in first-seen order.
fn unique_pieces(pieces: &Vec<Vec<char>>) -> (r: Vec<String>)
    ensures
        sviews(r@) == unique_values(vviews(pieces@)),
{
    let ghost all = vviews(pieces@);
    let mut out: Vec<String> = Vec::new();
    let mut i: usize = 0;
    assert(sviews(out@) =~= unique_values(all.take(0)));
    while i < pieces.len()
        invariant
            0 <= i <= pieces.len(),
            all == vviews(pieces@),
            sviews(out@) == unique_values(all.take(i as int)),
        decreases pieces.len() - i,
    {
        let s = string_from_chars(&pieces[i]);
        push_unique_exec(&mut out, s.as_str());
        assert(all.take(i + 1).drop_last() =~= all.take(i as int));
        i = i + 1;
    }
    assert(all.take(pieces.len() as int) =~= all);
    out
}

impl PasteTargetInfo {
    /// Reads the focused element as the System Events script reports it.
    pub fn from_osascript_output(output: &str) -> (r: Option<Self>)
        ensures
            match parsed_target(output@) {
                Some(t) => r matches Some(x) && x@ == t && x.wf(),
                None => r is None,
            },
    {
        if is_blank_str(output) {
            return None;
        }
        let v = chars_of(output);
        let lines = split_chars(&v, '\n');
        proof {
            lemma_split_on_nonempty(v@, '\n');
        }
        let first = trim_chars(&piece_or_empty(&lines, 0));
        let parsed = parse_i32_chars(&first);
        let pid = match parsed {
            Some(p) => if p > 0 {
                Some(p)
            } else {
                None
            },
            None => None,
        };
        let ri: usize = if pid.is_some() {
            1
        } else {
            0
        };
        let role = string_from_chars(&trim_chars(&piece_or_empty(&lines, ri)));
        let subrole = string_from_chars(&trim_chars(&piece_or_empty(&lines, ri + 1)));
        let attribute_line = piece_or_empty(&lines, ri + 2);
        let attribute_pieces = split_chars(&attribute_line, ',');
        let attributes = unique_pieces(&attribute_pieces);
        proof {
            lemma_unique_values_clean(vviews(attribute_pieces@));
            let a = sviews(attributes@);
            assert forall|i: int, j: int| 0 <= i < a.len() && 0 <= j < a.len() && i != j implies a[i]
                != a[j] by {
                if j < i {
                    assert(a[j] != a[i]);
                }
            }
        }
        if pid.is_none() && role.as_str().unicode_len() == 0 && subrole.as_str().unicode_len() == 0
            && attributes.len() == 0 {
            return None;
        }
        Some(PasteTargetInfo { pid, role, subrole, attributes })
    }
}

// --- Choosing the target ----------------------------------------------------

/// This app's own elements may receive the paste when the session began
/// aimed at this app, or at nothing known.
pub open spec fn allow_own(preferred: Option<TargetView>, own_pid: i32) -> bool {
    match preferred {
        Some(p) => p.pid == Some(own_pid),
        None => true,
    }
}

pub fn allow_own_target(preferred: Option<&PasteTargetInfo>, own_pid: i32) -> (r: bool)
    ensures
        r == allow_own(opt_target(preferred), own_pid),
{
    match preferred {
        Some(p) => match p.pid {
            Some(x) => x == own_pid,
            None => false,
        },
        None => true,
    }
}

/// A target read while waiting (after manual accessibility, or after
/// bringing the app forward) is taken when it is editable or a fallback.
pub open spec fn acceptable(t: Option<TargetView>, own_pid: i32, allow_own: bool) -> bool {
    t matches Some(x) && (verified_candidate(x, own_pid, allow_own) || fallback_candidate(
        x,
        own_pid,
        allow_own,
    ))
}

pub fn is_acceptable_paste_target(target: Option<&PasteTargetInfo>, own_pid: i32, allow_own: bool) -> (r:
    bool)
    ensures
        r == acceptable(opt_target(target), own_pid, allow_own),
{
    match target {
        Some(t) => is_verified_paste_candidate(t, own_pid, allow_own) || is_fallback_paste_candidate(
            t,
            own_pid,
            allow_own,
        ),
        None => false,
    }
}

/// What to do once the focused element itself was not editable and retrying
/// with manual accessibility brought nothing.
#[derive(Debug, Clone, Copy, PartialEq, Eq, Structural)]
pub enum PastePlan {
    /// Paste into the element that was focused at first (a fallback candidate).
    UseFocused,
    /// Paste into the element the session began with.
    UsePreferred,
    /// Bring this process forward, then look again; if nothing acceptable is
    /// focused then, paste into the element the session began with.
    ActivateThenPreferred { pid: i32 },
    /// There is nowhere to paste.
    NoTarget,
}

/// The plan after the first look (`focused`) and any manual-accessibility retry.
pub open spec fn plan(preferred: Option<TargetView>, focused: Option<TargetView>, own_pid: i32) -> PastePlan {
    let allow = allow_own(preferred, own_pid);
    let focused_is_own = focused matches Some(f) && f.pid == Some(own_pid);
    if focused matches Some(f) && fallback_candidate(f, own_pid, allow) {
        PastePlan::UseFocused
    } else {
        match preferred {
            Some(p) => if !attemptable(p, own_pid, allow) {
                PastePlan::NoTarget
            } else if focused_is_own && !allow {
                match p.pid {
                    Some(pid) => PastePlan::ActivateThenPreferred { pid },
                    None => PastePlan::NoTarget,
                }
            } else if focused is None {
                PastePlan::UsePreferred
            } else if allow && focused_is_own {
                PastePlan::UsePreferred
            } else {
                PastePlan::NoTarget
            },
            None => PastePlan::NoTarget,
        }
    }
}

pub fn paste_plan(preferred: Option<&PasteTargetInfo>, focused: Option<&PasteTargetInfo>, own_pid: i32) -> (r:
    PastePlan)
    ensures
        r == plan(opt_target(preferred), opt_target(focused), own_pid),
{
    let allow = allow_own_target(preferred, own_pid);
    let focused_is_own = match focused {
        Some(f) => match f.pid {
            Some(p) => p == own_pid,
            None => false,
        },
        None => false,
    };
    match focused {
        Some(f) => {
            if is_fallback_paste_candidate(f, own_pid, allow) {
                return PastePlan::UseFocused;
            }
        },
        None => {},
    }
    match preferred {
        Some(p) => {
            if !is_attemptable_paste_target(p, own_pid, allow) {
                PastePlan::NoTarget
            } else if focused_is_own && !allow {
                match p.pid {
                    Some(pid) => PastePlan::ActivateThenPreferred { pid },
                    None => PastePlan::NoTarget,
                }
            } else if focused.is_none() {
                PastePlan::UsePreferred
            } else if allow && focused_is_own {
                PastePlan::UsePreferred
            } else {
                PastePlan::NoTarget
            }
        },
        None => PastePlan::NoTarget,
    }
}

// --- Confirming the paste ---------------------------------------------------

/// The focused text element's process, text and selection (UTF-16 units).
#[derive(Debug, Clone)]
pub struct AxTextSnapshot {
    pub pid: i32,
    pub value: String,
    pub selected_range: TextRange,
}

/// How a paste showed up in the text.
#[derive(Debug, Clone, Copy, PartialEq, Eq, Structural)]
pub enum VerifiedPasteInsertion {
    /// The text changed; the new text is in this range.
    Changed(TextRange),
    /// The selection was replaced by the same text: only the selection moved.
    SameTextReplacement,
}

/// Where the paste went in, if the text changed at or over the selection.
pub open spec fn inserted_range(before: Seq<char>, selection: TextRange, after: Seq<char>) -> Option<
    TextRange,
> {
    if before == after || span_to(before, after).len() == 0 {
        None
    } else {
        let old_range = TextRange {
            location: span_location(before, after) as usize,
            length: crate::text::utf16_len(span_from(before, after)) as usize,
        };
        if ranges_overlap(old_range, selection) || old_range.location == selection.location {
            Some(
                TextRange {
                    location: span_location(before, after) as usize,
                    length: crate::text::utf16_len(span_to(before, after)) as usize,
                },
            )
        } else {
            None
        }
    }
}

/// The range where the text changed between the two snapshots, when the
/// change was an insertion at or over the selection.
pub fn inserted_range_from_snapshots(before: &AxTextSnapshot, after: &AxTextSnapshot) -> (r: Option<
    TextRange,
>)
    requires
        before.value@.len() <= usize::MAX / 2,
        after.value@.len() <= usize::MAX / 2,
    ensures
        r == inserted_range(before.value@, before.selected_range, after.value@),
{
    let span = match changed_span(before.value.as_str(), after.value.as_str()) {
        Some(s) => s,
        None => {
            return None;
        },
    };
    if span.to.as_str().unicode_len() == 0 {
        return None;
    }
    let selection = before.selected_range;
    let changed_replaced_selection = span.old_range.overlaps(selection) || span.old_range.location
        == selection.location;
    if !changed_replaced_selection {
        return None;
    }
    Some(span.new_range)
}

/// A selection was pasted over with exactly its own text: the text stayed
/// the same and only the selection moved.
pub open spec fn same_text_replacement(
    before: Seq<char>,
    before_sel: TextRange,
    after: Seq<char>,
    after_sel: TextRange,
    text: Seq<char>,
) -> bool {
    &&& text.len() > 0
    &&& before == after
    &&& before_sel.length != 0
    &&& before_sel != after_sel
    &&& range_text(before, before_sel) == Some(text)
}

pub fn unchanged_selection_replacement_matches_text(
    before: &AxTextSnapshot,
    after: &AxTextSnapshot,
    text: &str,
) -> (r: bool)
    ensures
        r == same_text_replacement(
            before.value@,
            before.selected_range,
            after.value@,
            after.selected_range,
            text@,
        ),
{
    if text.unicode_len() == 0 || !str_eq(before.value.as_str(), after.value.as_str())
        || before.selected_range.length == 0 {
        return false;
    }
    if before.selected_range == after.selected_range {
        return false;
    }
    match utf16_range_text(before.value.as_str(), before.selected_range) {
        Some(selected) => str_eq(selected.as_str(), text),
        None => false,
    }
}

/// What the snapshots show of a paste of `text`.
pub open spec fn insertion(
    before_pid: i32,
    before: Seq<char>,
    before_sel: TextRange,
    after_pid: i32,
    after: Seq<char>,
    after_sel: TextRange,
    text: Seq<char>,
) -> Option<VerifiedPasteInsertion> {
    if after_pid != before_pid {
        None
    } else {
        match inserted_range(before, before_sel, after) {
            Some(range) => Some(VerifiedPasteInsertion::Changed(range)),
            None => if same_text_replacement(before, before_sel, after, after_sel, text) {
                Some(VerifiedPasteInsertion::SameTextReplacement)
            } else {
                None
            },
        }
    }
}

/// Confirms a paste of `text` from the snapshots before and after it; the
/// process must be the same.
pub fn verify_paste_insertion(before: &AxTextSnapshot, after: &AxTextSnapshot, text: &str) -> (r:
    Option<VerifiedPasteInsertion>)
    requires
        before.value@.len() <= usize::MAX / 2,
        after.value@.len() <= usize::MAX / 2,
    ensures
        r == insertion(
            before.pid,
            before.value@,
            before.selected_range,
            after.pid,
            after.value@,
            after.selected_range,
            text@,
        ),
{
    if after.pid != before.pid {
        return None;
    }
    match inserted_range_from_snapshots(before, after) {
        Some(range) => {
            return Some(VerifiedPasteInsertion::Changed(range));
        },
        None => {},
    }
    if unchanged_selection_replacement_matches_text(before, after, text) {
        return Some(VerifiedPasteInsertion::SameTextReplacement);
    }
    None
}

/// The virtual key code of the Command shortcuts the app sends.
pub fn command_keycode(key: &str) -> (r: Option<u16>)
    ensures
        r == (if key@ == "c"@ {
            Some(8u16)
        } else if key@ == "v"@ {
            Some(9u16)
        } else {
            None::<u16>
        }),
{
    if str_eq(key, "c") {
        Some(8)
    } else if str_eq(key, "v") {
        Some(9)
    } else {
        None
    }
}

/// When a paste could not be read back in the text: it failed if focus has
/// left the target's app for another one; otherwise (including when either
/// process is unknown) it is taken as done but unverified.
pub fn paste_lost_focus(target_pid: Option<i32>, current_pid: Option<i32>) -> (r: bool)
    ensures
        r == (target_pid matches Some(t) && current_pid matches Some(c) && c != t),
{
    match target_pid {
        Some(t) => match current_pid {
            Some(c) => c != t,
            None => false,
        },
        None => false,
    }
}

} // verus!
