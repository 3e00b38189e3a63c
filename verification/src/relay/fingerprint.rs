//! What the fingerprint of a decision tells apart: every part of the intent, and nothing else.

use crate::json::{text_field, JsonV, ObjV};
use crate::json_write::{json_char, json_inner, json_literal};
use crate::relay::ids::{
    checklist_text, fingerprint_text, intent_part, intent_text, opt_literal,
};
use crate::relay::words::lemma_request_keys;
use crate::text::{hex_digit, Text};
use vstd::prelude::*;

verus! {

/// Whether the text holds no zero character.
pub open spec fn zero_free(t: Text) -> bool {
    forall|i: int| 0 <= i < t.len() ==> #[trigger] t[i] != '\0'
}

proof fn lemma_zero()
    ensures
        "\0"@ == seq!['\0'],
{
    reveal_strlit("\0");
    assert("\0"@ =~= seq!['\0']);
}

proof fn lemma_split(a: Text, x: Text, b: Text, y: Text)
    requires
        zero_free(a),
        zero_free(b),
        a + seq!['\0'] + x == b + seq!['\0'] + y,
    ensures
        a == b,
        x == y,
{
    let s = a + seq!['\0'] + x;
    let t = b + seq!['\0'] + y;
    assert(s[a.len() as int] == '\0');
    assert(t[b.len() as int] == '\0');
    if a.len() < b.len() {
        assert(t[a.len() as int] == b[a.len() as int]);
    }
    if b.len() < a.len() {
        assert(s[b.len() as int] == a[b.len() as int]);
    }
    assert(a =~= s.take(a.len() as int));
    assert(b =~= t.take(b.len() as int));
    assert(x =~= s.skip(a.len() as int + 1));
    assert(y =~= t.skip(b.len() as int + 1));
}

proof fn lemma_char_zero_free(c: char)
    ensures
        zero_free(json_char(c)),
        json_char(c).len() > 0,
{
    let u = c as u32;
    if u < 0x20 {
        let h = u as int / 16;
        let l = u as int % 16;
        assert(hex_digit(h) != '\0');
        assert(hex_digit(l) != '\0');
    }
}

proof fn lemma_inner_zero_free(t: Text)
    ensures
        zero_free(json_inner(t)),
    decreases t.len(),
{
    if t.len() > 0 {
        lemma_inner_zero_free(t.drop_last());
        lemma_char_zero_free(t.last());
    }
}

proof fn lemma_literal_zero_free(t: Text)
    ensures
        zero_free(json_literal(t)),
{
    lemma_inner_zero_free(t);
}

proof fn lemma_inner_front(t: Text)
    requires
        t.len() > 0,
    ensures
        json_inner(t) == json_char(t[0]) + json_inner(t.drop_first()),
    decreases t.len(),
{
    let d = t.drop_last();
    if t.len() == 1 {
        assert(json_inner(d) =~= Seq::empty());
        assert(json_inner(t.drop_first()) =~= Seq::empty());
        assert(json_inner(t) =~= json_char(t[0]) + json_inner(t.drop_first()));
    } else {
        lemma_inner_front(d);
        assert(d.drop_first() =~= t.drop_first().drop_last());
        assert(t.drop_first().last() == t.last());
        assert(json_inner(t) =~= json_char(t[0]) + json_inner(t.drop_first()));
    }
}

proof fn lemma_hex_digits(a: int, b: int)
    requires
        0 <= a < 16,
        0 <= b < 16,
        hex_digit(a) == hex_digit(b),
    ensures
        a == b,
{
    if a < 10 && b < 10 {
        assert((48 + a) as u8 == (48 + b) as u8);
    } else if a >= 10 && b >= 10 {
        assert((87 + a) as u8 == (87 + b) as u8);
    } else if a < 10 {
        assert(((48 + a) as u8) as char == ((87 + b) as u8) as char);
        assert((48 + a) as u8 == (87 + b) as u8);
    } else {
        assert(((87 + a) as u8) as char == ((48 + b) as u8) as char);
        assert((87 + a) as u8 == (48 + b) as u8);
    }
}

proof fn lemma_char_prefix(c: char, x: Text, d: char, y: Text)
    requires
        json_char(c) + x == json_char(d) + y,
    ensures
        c == d,
        x == y,
{
    let e = json_char(c);
    let f = json_char(d);
    let s = e + x;
    let t = f + y;
    assert(s[0] == e[0]);
    assert(t[0] == f[0]);
    let uc = c as u32;
    let ud = d as u32;
    if e.len() == 1 && f.len() > 1 {
        assert(e[0] == c);
        assert(f[0] == '\\');
    } else if f.len() == 1 && e.len() > 1 {
        assert(f[0] == d);
        assert(e[0] == '\\');
    } else if e.len() == 1 && f.len() == 1 {
        assert(c == d);
    } else {
        assert(s[1] == e[1]);
        assert(t[1] == f[1]);
        if e[1] == 'u' {
            assert(f[1] == 'u');
            assert(s[4] == e[4] && s[5] == e[5]);
            assert(t[4] == f[4] && t[5] == f[5]);
            lemma_hex_digits(uc as int / 16, ud as int / 16);
            lemma_hex_digits(uc as int % 16, ud as int % 16);
            assert(uc == ud);
            assert(c == d);
        } else {
            assert(c == d);
        }
    }
    assert(e == f);
    assert(x =~= s.skip(e.len() as int));
    assert(y =~= t.skip(f.len() as int));
}

proof fn lemma_inner_injective(a: Text, b: Text)
    requires
        json_inner(a) == json_inner(b),
    ensures
        a == b,
    decreases a.len(),
{
    if a.len() == 0 || b.len() == 0 {
        if a.len() > 0 {
            lemma_inner_front(a);
            lemma_char_zero_free(a[0]);
        }
        if b.len() > 0 {
            lemma_inner_front(b);
            lemma_char_zero_free(b[0]);
        }
        assert(a =~= b);
    } else {
        lemma_inner_front(a);
        lemma_inner_front(b);
        lemma_char_prefix(
            a[0],
            json_inner(a.drop_first()),
            b[0],
            json_inner(b.drop_first()),
        );
        lemma_inner_injective(a.drop_first(), b.drop_first());
        assert(a =~= seq![a[0]] + a.drop_first());
        assert(b =~= seq![b[0]] + b.drop_first());
    }
}

/// Different texts have different JSON literals.
pub proof fn literals_tell_texts_apart(a: Text, b: Text)
    requires
        json_literal(a) == json_literal(b),
    ensures
        a == b,
{
    let x = json_literal(a);
    let y = json_literal(b);
    assert(json_inner(a) =~= x.subrange(1, x.len() - 1));
    assert(json_inner(b) =~= y.subrange(1, y.len() - 1));
    lemma_inner_injective(a, b);
}

proof fn lemma_opt_literal(a: Option<Text>, b: Option<Text>)
    requires
        opt_literal(a) == opt_literal(b),
    ensures
        a == b,
{
    reveal_strlit("null");
    assert("null"@[0] == 'n');
    if a is Some && b is Some {
        literals_tell_texts_apart(a->0, b->0);
    } else if a is Some {
        assert(json_literal(a->0)[0] == '"');
    } else if b is Some {
        assert(json_literal(b->0)[0] == '"');
    }
}

proof fn lemma_opt_zero_free(a: Option<Text>)
    ensures
        zero_free(opt_literal(a)),
{
    reveal_strlit("null");
    if a is Some {
        lemma_literal_zero_free(a->0);
    } else {
        assert("null"@ =~= seq!['n', 'u', 'l', 'l']);
    }
}

proof fn lemma_part(name: Text, v: Text, x: Text, w: Text, y: Text)
    requires
        zero_free(v),
        zero_free(w),
        intent_part(name, v) + x == intent_part(name, w) + y,
    ensures
        v == w,
        x == y,
{
    lemma_zero();
    let s = intent_part(name, v) + x;
    let t = intent_part(name, w) + y;
    let n = name.len() + 1;
    assert(s.skip(n as int) =~= v + seq!['\0'] + x);
    assert(t.skip(n as int) =~= w + seq!['\0'] + y);
    lemma_split(v, x, w, y);
}

spec fn rest_1(args: ObjV) -> Text {
    intent_part("outcome"@, opt_literal(text_field(args, "outcome"@))) + rest_2(args)
}

spec fn rest_2(args: ObjV) -> Text {
    intent_part("task_priority"@, opt_literal(text_field(args, "task_priority"@))) + rest_3(args)
}

spec fn rest_3(args: ObjV) -> Text {
    intent_part("checklist"@, checklist_text(args)) + intent_part(
        "insight"@,
        opt_literal(text_field(args, "insight"@)),
    )
}

proof fn lemma_nested(
    decision: Text,
    reason: Text,
    actor: Text,
    title: Text,
    text: Text,
    args: ObjV,
)
    ensures
        intent_text(decision, reason, actor, title, text, args) == intent_part(
            "decision"@,
            json_literal(decision),
        ) + (intent_part("reason"@, json_literal(reason)) + (intent_part(
            "next_actor_id"@,
            json_literal(actor),
        ) + (intent_part("next_title"@, json_literal(title)) + (intent_part(
            "next_text"@,
            json_literal(text),
        ) + (intent_part("task_id"@, opt_literal(text_field(args, "task_id"@))) + rest_1(
            args,
        )))))),
{
    lemma_regrouped(
        intent_part("decision"@, json_literal(decision)),
        intent_part("reason"@, json_literal(reason)),
        intent_part("next_actor_id"@, json_literal(actor)),
        intent_part("next_title"@, json_literal(title)),
        intent_part("next_text"@, json_literal(text)),
        intent_part("task_id"@, opt_literal(text_field(args, "task_id"@))),
        intent_part("outcome"@, opt_literal(text_field(args, "outcome"@))),
        intent_part("task_priority"@, opt_literal(text_field(args, "task_priority"@))),
        intent_part("checklist"@, checklist_text(args)),
        intent_part("insight"@, opt_literal(text_field(args, "insight"@))),
    );
}

proof fn lemma_regrouped(
    a: Text,
    b: Text,
    c: Text,
    d: Text,
    e: Text,
    f: Text,
    g: Text,
    h: Text,
    i: Text,
    j: Text,
)
    ensures
        a + b + c + d + e + f + g + h + i + j == a + (b + (c + (d + (e + (f + (g + (h + (i
            + j)))))))),
{
    let r = c + (d + (e + (f + (g + (h + (i + j))))));
    assert(a + b + c + d + e + f + g + h + i + j =~= a + b + c + d + e + f + g + (h + (i + j)));
    assert(a + b + c + d + e + f + g + (h + (i + j)) =~= a + b + c + d + (e + (f + (g + (h + (i
        + j))))));
    assert(a + b + c + d + (e + (f + (g + (h + (i + j))))) =~= a + b + r);
    assert(a + b + r =~= a + (b + r));
}

/// The text that is fingerprinted tells intents apart: two requests with the same text agree in
/// the decision, the reason, the next work, the task, the outcome, the priority, the checklist and
/// the insight.
pub proof fn the_fingerprinted_text_tells_intents_apart(
    d1: Text,
    r1: Text,
    a1: Text,
    t1: Text,
    x1: Text,
    m1: ObjV,
    d2: Text,
    r2: Text,
    a2: Text,
    t2: Text,
    x2: Text,
    m2: ObjV,
)
    requires
        zero_free(checklist_text(m1)),
        zero_free(checklist_text(m2)),
        intent_text(d1, r1, a1, t1, x1, m1) == intent_text(d2, r2, a2, t2, x2, m2),
    ensures
        d1 == d2,
        r1 == r2,
        a1 == a2,
        t1 == t2,
        x1 == x2,
        text_field(m1, "task_id"@) == text_field(m2, "task_id"@),
        text_field(m1, "outcome"@) == text_field(m2, "outcome"@),
        text_field(m1, "task_priority"@) == text_field(m2, "task_priority"@),
        checklist_text(m1) == checklist_text(m2),
        text_field(m1, "insight"@) == text_field(m2, "insight"@),
{
    lemma_nested(d1, r1, a1, t1, x1, m1);
    lemma_nested(d2, r2, a2, t2, x2, m2);
    lemma_literal_zero_free(d1);
    lemma_literal_zero_free(d2);
    lemma_literal_zero_free(r1);
    lemma_literal_zero_free(r2);
    lemma_literal_zero_free(a1);
    lemma_literal_zero_free(a2);
    lemma_literal_zero_free(t1);
    lemma_literal_zero_free(t2);
    lemma_literal_zero_free(x1);
    lemma_literal_zero_free(x2);
    lemma_opt_zero_free(text_field(m1, "task_id"@));
    lemma_opt_zero_free(text_field(m2, "task_id"@));
    lemma_opt_zero_free(text_field(m1, "outcome"@));
    lemma_opt_zero_free(text_field(m2, "outcome"@));
    lemma_opt_zero_free(text_field(m1, "task_priority"@));
    lemma_opt_zero_free(text_field(m2, "task_priority"@));
    lemma_opt_zero_free(text_field(m1, "insight"@));
    lemma_opt_zero_free(text_field(m2, "insight"@));
    let i1 = opt_literal(text_field(m1, "insight"@));
    let i2 = opt_literal(text_field(m2, "insight"@));
    let k1 = opt_literal(text_field(m1, "task_id"@));
    let k2 = opt_literal(text_field(m2, "task_id"@));
    let o1 = opt_literal(text_field(m1, "outcome"@));
    let o2 = opt_literal(text_field(m2, "outcome"@));
    let p1 = opt_literal(text_field(m1, "task_priority"@));
    let p2 = opt_literal(text_field(m2, "task_priority"@));
    let f1 = intent_part("task_id"@, k1) + rest_1(m1);
    let f2 = intent_part("task_id"@, k2) + rest_1(m2);
    let e1 = intent_part("next_text"@, json_literal(x1)) + f1;
    let e2 = intent_part("next_text"@, json_literal(x2)) + f2;
    let g1 = intent_part("next_title"@, json_literal(t1)) + e1;
    let g2 = intent_part("next_title"@, json_literal(t2)) + e2;
    let h1 = intent_part("next_actor_id"@, json_literal(a1)) + g1;
    let h2 = intent_part("next_actor_id"@, json_literal(a2)) + g2;
    let j1 = intent_part("reason"@, json_literal(r1)) + h1;
    let j2 = intent_part("reason"@, json_literal(r2)) + h2;
    lemma_part("decision"@, json_literal(d1), j1, json_literal(d2), j2);
    lemma_part("reason"@, json_literal(r1), h1, json_literal(r2), h2);
    lemma_part("next_actor_id"@, json_literal(a1), g1, json_literal(a2), g2);
    lemma_part("next_title"@, json_literal(t1), e1, json_literal(t2), e2);
    lemma_part("next_text"@, json_literal(x1), f1, json_literal(x2), f2);
    lemma_part("task_id"@, k1, rest_1(m1), k2, rest_1(m2));
    lemma_part("outcome"@, o1, rest_2(m1), o2, rest_2(m2));
    lemma_part("task_priority"@, p1, rest_3(m1), p2, rest_3(m2));
    lemma_part(
        "checklist"@,
        checklist_text(m1),
        intent_part("insight"@, i1),
        checklist_text(m2),
        intent_part("insight"@, i2),
    );
    assert(intent_part("insight"@, i1) =~= intent_part("insight"@, i1) + Seq::empty());
    assert(intent_part("insight"@, i2) =~= intent_part("insight"@, i2) + Seq::empty());
    lemma_part("insight"@, i1, Seq::empty(), i2, Seq::empty());
    literals_tell_texts_apart(d1, d2);
    literals_tell_texts_apart(r1, r2);
    literals_tell_texts_apart(a1, a2);
    literals_tell_texts_apart(t1, t2);
    literals_tell_texts_apart(x1, x2);
    lemma_opt_literal(text_field(m1, "task_id"@), text_field(m2, "task_id"@));
    lemma_opt_literal(text_field(m1, "outcome"@), text_field(m2, "outcome"@));
    lemma_opt_literal(text_field(m1, "task_priority"@), text_field(m2, "task_priority"@));
    lemma_opt_literal(text_field(m1, "insight"@), text_field(m2, "insight"@));
}

/// The wording of a summary is no part of the intent: it does not change the fingerprint.
pub proof fn the_summary_is_no_part_of_the_intent(
    decision: Text,
    reason: Text,
    actor: Text,
    title: Text,
    text: Text,
    args: ObjV,
    summary: JsonV,
)
    ensures
        fingerprint_text(
            decision,
            reason,
            actor,
            title,
            text,
            args.insert("summary"@, summary),
        ) == fingerprint_text(decision, reason, actor, title, text, args),
{
    lemma_request_keys();
}

} // verus!
