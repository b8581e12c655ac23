//! Normalizing a shortcut binding a second time changes nothing: the label
//! rebuilt from its modifiers and key part keeps that key part.
use vstd::prelude::*;
use crate::settings::{
    fallback_key_label, format_shortcut_label, is_fn_key_parts, is_modifier_word, normalized_key,
    normalized_label, opt_word, shortcut_base_label, shortcut_label_parts, skip_modifier_words,
    ShortcutBinding, ShortcutModifiers,
};
use crate::text::{
    ascii_lower, ascii_lower_seq, ascii_upper, ascii_upper_seq, flush_word, is_blank, is_ws, join,
    lemma_trim_bounds, trim, trim_hi, trim_lo, words, words_from,
};

verus! {

/// No character of `s` is white space.
pub open spec fn no_ws(s: Seq<char>) -> bool {
    forall|i: int| 0 <= i < s.len() ==> !is_ws(#[trigger] s[i])
}

/// Every item is a non-empty run of characters that are not white space.
pub open spec fn clean_words(ws: Seq<Seq<char>>) -> bool {
    forall|i: int| 0 <= i < ws.len() ==> (#[trigger] ws[i]).len() > 0 && no_ws(ws[i])
}

/// Clean words that all name modifier keys.
pub open spec fn modifier_words(ws: Seq<Seq<char>>) -> bool {
    clean_words(ws) && forall|i: int| 0 <= i < ws.len() ==> is_modifier_word(#[trigger] ws[i])
}

/// The modifier words at the front of a formatted label.
pub open spec fn modifier_parts(m: ShortcutModifiers) -> Seq<Seq<char>> {
    opt_word(m.control, "Ctrl"@) + opt_word(m.option, "Option"@) + opt_word(m.shift, "Shift"@)
        + opt_word(m.command, "Cmd"@) + opt_word(m.function, "Fn"@)
}

/// The words of a label after its leading modifier names, joined by spaces.
pub open spec fn key_words_text(label: Seq<char>) -> Seq<char> {
    let ws = words(label);
    join(ws.subrange(skip_modifier_words(ws, 0), ws.len() as int), seq![' '])
}

proof fn lemma_trim_clean(s: Seq<char>)
    requires
        s.len() == 0 || (!is_ws(s[0]) && !is_ws(s[s.len() - 1])),
    ensures
        trim(s) == s,
{
    lemma_trim_bounds(s);
    if s.len() > 0 {
        if trim_lo(s) > 0 {
            assert(is_ws(s[0]));
        }
        if trim_hi(s) < s.len() {
            assert(is_ws(s[s.len() - 1]));
        }
    }
    assert(trim(s) =~= s);
}

proof fn lemma_words_shift(p: Seq<char>, q: Seq<char>, j: int, cur: Seq<char>)
    requires
        0 <= j,
    ensures
        words_from(p + q, p.len() + j, cur) == words_from(q, j, cur),
    decreases q.len() - j,
{
    if j < q.len() {
        assert((p + q)[p.len() + j] == q[j]);
        if is_ws(q[j]) {
            lemma_words_shift(p, q, j + 1, Seq::empty());
        } else {
            lemma_words_shift(p, q, j + 1, cur.push(q[j]));
        }
    }
}

proof fn lemma_words_split(p: Seq<char>, q: Seq<char>, i: int, cur: Seq<char>)
    requires
        0 <= i <= p.len(),
    ensures
        words_from(p + seq![' '] + q, i, cur) == words_from(p, i, cur) + words(q),
    decreases p.len() - i,
{
    let s = p + seq![' '] + q;
    if i == p.len() {
        assert(s[i] == ' ');
        assert(is_ws(' '));
        lemma_words_shift(p + seq![' '], q, 0, Seq::empty());
        assert((p + seq![' ']).len() + 0 == i + 1);
    } else {
        assert(s[i] == p[i]);
        if is_ws(p[i]) {
            lemma_words_split(p, q, i + 1, Seq::empty());
            assert(flush_word(cur) + (words_from(p, i + 1, Seq::empty()) + words(q)) =~= (
            flush_word(cur) + words_from(p, i + 1, Seq::empty())) + words(q));
        } else {
            lemma_words_split(p, q, i + 1, cur.push(p[i]));
        }
    }
}

proof fn lemma_words_of_run(w: Seq<char>, i: int, cur: Seq<char>)
    requires
        0 <= i <= w.len(),
        no_ws(w),
    ensures
        words_from(w, i, cur) == flush_word(cur + w.subrange(i, w.len() as int)),
    decreases w.len() - i,
{
    if i < w.len() {
        assert(!is_ws(w[i]));
        lemma_words_of_run(w, i + 1, cur.push(w[i]));
        assert(cur.push(w[i]) + w.subrange(i + 1, w.len() as int) =~= cur + w.subrange(
            i,
            w.len() as int,
        ));
    } else {
        assert(cur + w.subrange(i, w.len() as int) =~= cur);
    }
}

proof fn lemma_words_of_word(w: Seq<char>)
    requires
        w.len() > 0,
        no_ws(w),
    ensures
        words(w) == seq![w],
{
    lemma_words_of_run(w, 0, Seq::empty());
    assert(Seq::<char>::empty() + w.subrange(0, w.len() as int) =~= w);
}

proof fn lemma_clean_add(a: Seq<Seq<char>>, b: Seq<Seq<char>>)
    requires
        clean_words(a),
        clean_words(b),
    ensures
        clean_words(a + b),
{
    assert forall|i: int| 0 <= i < (a + b).len() implies (#[trigger] (a + b)[i]).len() > 0 && no_ws(
        (a + b)[i],
    ) by {
        if i < a.len() {
            assert((a + b)[i] == a[i]);
        } else {
            assert((a + b)[i] == b[i - a.len()]);
        }
    }
}

proof fn lemma_modifier_add(a: Seq<Seq<char>>, b: Seq<Seq<char>>)
    requires
        modifier_words(a),
        modifier_words(b),
    ensures
        modifier_words(a + b),
{
    lemma_clean_add(a, b);
    assert forall|i: int| 0 <= i < (a + b).len() implies is_modifier_word(#[trigger] (a + b)[i]) by {
        if i < a.len() {
            assert((a + b)[i] == a[i]);
        } else {
            assert((a + b)[i] == b[i - a.len()]);
        }
    }
}

proof fn lemma_words_clean(s: Seq<char>, i: int, cur: Seq<char>)
    requires
        no_ws(cur),
    ensures
        clean_words(words_from(s, i, cur)),
    decreases s.len() - i,
{
    if i < 0 || i >= s.len() {
    } else if is_ws(s[i]) {
        lemma_words_clean(s, i + 1, Seq::empty());
        lemma_clean_add(flush_word(cur), words_from(s, i + 1, Seq::empty()));
    } else {
        let c = cur.push(s[i]);
        assert forall|k: int| 0 <= k < c.len() implies !is_ws(#[trigger] c[k]) by {
            if k < cur.len() {
                assert(c[k] == cur[k]);
            }
        }
        lemma_words_clean(s, i + 1, c);
    }
}

proof fn lemma_join_ends(b: Seq<Seq<char>>)
    requires
        b.len() > 0,
        clean_words(b),
    ensures
        join(b, seq![' ']).len() > 0,
        !is_ws(join(b, seq![' '])[0]),
        !is_ws(join(b, seq![' '])[join(b, seq![' ']).len() - 1]),
    decreases b.len(),
{
    if b.len() == 1 {
        assert(b[0].len() > 0 && no_ws(b[0]));
        assert(!is_ws(b[0][b[0].len() - 1]));
    } else {
        let d = b.drop_last();
        assert forall|i: int| 0 <= i < d.len() implies (#[trigger] d[i]).len() > 0 && no_ws(d[i]) by {
            assert(d[i] == b[i]);
        }
        lemma_join_ends(d);
        let l = b[b.len() - 1];
        assert(l.len() > 0 && no_ws(l));
        assert(!is_ws(l[l.len() - 1]));
        let j = join(d, seq![' ']) + seq![' '] + b.last();
        assert(j[0] == join(d, seq![' '])[0]);
        assert(j[j.len() - 1] == l[l.len() - 1]);
    }
}

proof fn lemma_words_join(b: Seq<Seq<char>>)
    requires
        clean_words(b),
    ensures
        words(join(b, seq![' '])) == b,
    decreases b.len(),
{
    if b.len() == 0 {
        assert(b =~= Seq::<Seq<char>>::empty());
    } else if b.len() == 1 {
        assert(b[0].len() > 0 && no_ws(b[0]));
        lemma_words_of_word(b[0]);
        assert(b =~= seq![b[0]]);
    } else {
        let d = b.drop_last();
        assert forall|i: int| 0 <= i < d.len() implies (#[trigger] d[i]).len() > 0 && no_ws(d[i]) by {
            assert(d[i] == b[i]);
        }
        lemma_words_join(d);
        let l = b[b.len() - 1];
        assert(l.len() > 0 && no_ws(l));
        lemma_words_of_word(l);
        lemma_words_split(join(d, seq![' ']), l, 0, Seq::empty());
        assert(d + seq![l] =~= b);
    }
}

/// The words of a label made of modifier words and then `text`.
proof fn lemma_words_of_formatted(mods: Seq<Seq<char>>, text: Seq<char>)
    requires
        clean_words(mods),
        text.len() > 0,
    ensures
        words(join(mods + seq![text], seq![' '])) == mods + words(text),
{
    let ps = mods + seq![text];
    if mods.len() == 0 {
        assert(ps =~= seq![text]);
        assert(mods + words(text) =~= words(text));
    } else {
        assert(ps.drop_last() =~= mods);
        assert(ps.last() == text);
        lemma_words_join(mods);
        lemma_words_split(join(mods, seq![' ']), text, 0, Seq::empty());
    }
}

proof fn lemma_skip_bounds(ws: Seq<Seq<char>>, i: int)
    requires
        0 <= i <= ws.len(),
    ensures
        i <= skip_modifier_words(ws, i) <= ws.len(),
        skip_modifier_words(ws, i) < ws.len() ==> !is_modifier_word(ws[skip_modifier_words(ws, i)]),
    decreases ws.len() - i,
{
    if i < ws.len() && is_modifier_word(ws[i]) {
        lemma_skip_bounds(ws, i + 1);
    }
}

proof fn lemma_skip_prefix(xs: Seq<Seq<char>>, ys: Seq<Seq<char>>, i: int)
    requires
        0 <= i <= xs.len(),
        modifier_words(xs),
    ensures
        skip_modifier_words(xs + ys, i) == skip_modifier_words(xs + ys, xs.len() as int),
    decreases xs.len() - i,
{
    if i < xs.len() {
        assert((xs + ys)[i] == xs[i]);
        assert(is_modifier_word(xs[i]));
        lemma_skip_prefix(xs, ys, i + 1);
    }
}

proof fn lemma_lower_keeps_ws(c: char)
    ensures
        is_ws(ascii_lower(c)) == is_ws(c),
        ascii_lower(ascii_lower(c)) == ascii_lower(c),
{
}

proof fn lemma_upper_keeps_ws(c: char)
    ensures
        is_ws(ascii_upper(c)) == is_ws(c),
{
}

proof fn lemma_modifier_literal_words(m: ShortcutModifiers)
    ensures
        modifier_words(modifier_parts(m)),
{
    reveal_strlit("Ctrl");
    reveal_strlit("Option");
    reveal_strlit("Shift");
    reveal_strlit("Cmd");
    reveal_strlit("Fn");
    reveal_strlit("ctrl");
    reveal_strlit("option");
    reveal_strlit("shift");
    reveal_strlit("cmd");
    reveal_strlit("fn");
    assert(ascii_lower_seq("Ctrl"@) =~= "ctrl"@);
    assert(ascii_lower_seq("Option"@) =~= "option"@);
    assert(ascii_lower_seq("Shift"@) =~= "shift"@);
    assert(ascii_lower_seq("Cmd"@) =~= "cmd"@);
    assert(ascii_lower_seq("Fn"@) =~= "fn"@);
    let words_of = seq!["Ctrl"@, "Option"@, "Shift"@, "Cmd"@, "Fn"@];
    assert forall|k: int, b: bool| 0 <= k < 5 implies modifier_words(#[trigger] opt_word(b, words_of[k])) by {
        let w = words_of[k];
        assert(w.len() > 0 && no_ws(w) && is_modifier_word(w));
        if b {
            assert(opt_word(b, w)[0] == w);
        }
    }
    let a = opt_word(m.control, "Ctrl"@);
    let o = opt_word(m.option, "Option"@);
    let s = opt_word(m.shift, "Shift"@);
    let c = opt_word(m.command, "Cmd"@);
    let f = opt_word(m.function, "Fn"@);
    assert(modifier_words(opt_word(m.control, words_of[0])));
    assert(modifier_words(opt_word(m.option, words_of[1])));
    assert(modifier_words(opt_word(m.shift, words_of[2])));
    assert(modifier_words(opt_word(m.command, words_of[3])));
    assert(modifier_words(opt_word(m.function, words_of[4])));
    lemma_modifier_add(a, o);
    lemma_modifier_add(a + o, s);
    lemma_modifier_add(a + o + s, c);
    lemma_modifier_add(a + o + s + c, f);
}

proof fn lemma_fallback_no_ws(key: Seq<char>)
    requires
        no_ws(key),
    ensures
        no_ws(fallback_key_label(key)),
{
    reveal_strlit("Space");
    reveal_strlit("Return");
    reveal_strlit("Tab");
    reveal_strlit("Escape");
    reveal_strlit("Delete");
    if key.len() == 1 && (key[0] as u32) < 128 {
        let u = ascii_upper_seq(key);
        assert forall|i: int| 0 <= i < u.len() implies !is_ws(#[trigger] u[i]) by {
            lemma_upper_keeps_ws(key[i]);
        }
    }
}

proof fn lemma_normalized_key_clean(key: Seq<char>)
    ensures
        normalized_key(normalized_key(key)) == normalized_key(key),
        no_ws(trim(key)) ==> no_ws(normalized_key(key)),
{
    let t = trim(key);
    let n = normalized_key(key);
    lemma_trim_bounds(key);
    assert forall|i: int| 0 <= i < n.len() implies is_ws(#[trigger] n[i]) == is_ws(t[i]) by {
        lemma_lower_keeps_ws(t[i]);
    }
    if t.len() > 0 {
        assert(t[0] == key[trim_lo(key)]);
        assert(t[t.len() - 1] == key[trim_hi(key) - 1]);
        assert(!is_ws(n[0]));
        assert(!is_ws(n[n.len() - 1]));
    }
    lemma_trim_clean(n);
    assert forall|i: int| 0 <= i < n.len() implies #[trigger] ascii_lower(n[i]) == n[i] by {
        lemma_lower_keeps_ws(t[i]);
    }
    assert(ascii_lower_seq(n) =~= n);
}

/// The key part that a formatted label gives back is the one it was built from.
proof fn lemma_base_kept(
    key_code: Option<i64>,
    key: Seq<char>,
    label: Seq<char>,
    m: ShortcutModifiers,
)
    requires
        !is_fn_key_parts(key_code, key),
        no_ws(key) || !is_blank(key_words_text(label)),
    ensures
        shortcut_base_label(format_shortcut_label(m, shortcut_base_label(label, key)), key)
            == shortcut_base_label(label, key),
{
    let base = shortcut_base_label(label, key);
    let mods = modifier_parts(m);
    lemma_modifier_literal_words(m);
    assert(shortcut_label_parts(m, base) == mods + opt_word(!is_blank(base), trim(base)));
    let formatted = format_shortcut_label(m, base);
    let ws = words(label);
    let sk = skip_modifier_words(ws, 0);
    lemma_skip_bounds(ws, 0);
    let stripped = key_words_text(label);
    if !is_blank(stripped) {
        // The label named the key: its words after the modifiers.
        let b = ws.subrange(sk, ws.len() as int);
        lemma_words_clean(label, 0, Seq::empty());
        assert forall|i: int| 0 <= i < b.len() implies (#[trigger] b[i]).len() > 0 && no_ws(b[i]) by {
            assert(b[i] == ws[sk + i]);
        }
        if b.len() == 0 {
            assert(is_blank(join(b, seq![' '])));
        }
        assert(b[0] == ws[sk]);
        lemma_join_ends(b);
        lemma_trim_clean(base);
        assert(opt_word(!is_blank(base), trim(base)) =~= seq![base]);
        lemma_words_of_formatted(mods, base);
        lemma_words_join(b);
        let ws2 = mods + b;
        assert(words(formatted) == ws2);
        lemma_skip_prefix(mods, b, 0);
        assert(ws2[mods.len() as int] == b[0]);
        assert(skip_modifier_words(ws2, 0) == mods.len());
        assert(ws2.subrange(mods.len() as int, ws2.len() as int) =~= b);
    } else {
        // The label named nothing but modifiers: the key's own name stands in.
        lemma_fallback_no_ws(key);
        lemma_words_join(mods);
        if base.len() == 0 {
            assert(is_blank(base));
            assert(opt_word(!is_blank(base), trim(base)) =~= Seq::<Seq<char>>::empty());
            assert(mods + Seq::<Seq<char>>::empty() =~= mods);
            lemma_skip_prefix(mods, Seq::empty(), 0);
            assert(mods + Seq::<Seq<char>>::empty() =~= mods);
            assert(skip_modifier_words(mods, 0) == mods.len());
            assert(mods.subrange(mods.len() as int, mods.len() as int) =~= Seq::<Seq<char>>::empty());
        } else {
            assert(!is_ws(base[0]));
            assert(!is_blank(base));
            lemma_trim_clean(base);
            assert(opt_word(!is_blank(base), trim(base)) =~= seq![base]);
            lemma_words_of_word(base);
            lemma_words_of_formatted(mods, base);
            let ws2 = mods + seq![base];
            assert(words(formatted) == ws2);
            lemma_skip_prefix(mods, seq![base], 0);
            assert(ws2[mods.len() as int] == base);
            if is_modifier_word(base) {
                assert(skip_modifier_words(ws2, mods.len() as int + 1) == mods.len() + 1);
                assert(ws2.subrange(ws2.len() as int, ws2.len() as int) =~= Seq::<Seq<char>>::empty());
            } else {
                assert(ws2.subrange(mods.len() as int, ws2.len() as int) =~= seq![base]);
            }
        }
    }
}

/// Normalizing a binding a second time changes nothing: the key stays as it
/// is and no modifier word is doubled in the label. This fails only where
/// the label is rebuilt from a key name that holds white space inside (a
/// stored label that names no key, and a key such as `ctrl x`), so those
/// keys are left out unless the label names the key or the key is Fn.
pub proof fn lemma_normalize_idempotent(b: ShortcutBinding)
    requires
        no_ws(trim(b.key@)) || is_fn_key_parts(b.key_code, normalized_key(b.key@)) || !is_blank(
            key_words_text(b.label@),
        ),
    ensures
        normalized_key(normalized_key(b.key@)) == normalized_key(b.key@),
        normalized_label(
            b.key_code,
            normalized_key(normalized_key(b.key@)),
            normalized_label(b.key_code, normalized_key(b.key@), b.label@, b.modifiers),
            b.modifiers,
        ) == normalized_label(b.key_code, normalized_key(b.key@), b.label@, b.modifiers),
{
    let k = normalized_key(b.key@);
    lemma_normalized_key_clean(b.key@);
    if !is_fn_key_parts(b.key_code, k) {
        lemma_base_kept(b.key_code, k, b.label@, b.modifiers);
    }
}

} // verus!
