//! JSON string escaping in the form serde_json writes it, and its inverse.
use vstd::prelude::*;
use crate::text::{chars_of, digit_char};

verus! {

/// The lower-case hexadecimal digit of `d`, for `d` in `0..16`.
pub open spec fn hex_digit(d: int) -> char {
    if d < 10 {
        digit_char(d)
    } else {
        ((d + 87) as u32) as char
    }
}

/// Whether a JSON string must escape `c`.
pub open spec fn needs_escape(c: char) -> bool {
    c == '"' || c == '\\' || (c as u32) < 32
}

/// The character that the two-character escape `\d` stands for.
pub open spec fn short_escape(d: char) -> Option<char> {
    if d == '"' {
        Some('"')
    } else if d == '\\' {
        Some('\\')
    } else if d == 'b' {
        Some('\u{8}')
    } else if d == 'f' {
        Some('\u{c}')
    } else if d == 'n' {
        Some('\n')
    } else if d == 'r' {
        Some('\r')
    } else if d == 't' {
        Some('\t')
    } else {
        None
    }
}

/// `c` inside a JSON string: a quote, a backslash and the control characters
/// are escaped, with the short forms where JSON has them and `\u00xx` else.
pub open spec fn escape_char(c: char) -> Seq<char> {
    if c == '"' {
        seq!['\\', '"']
    } else if c == '\\' {
        seq!['\\', '\\']
    } else if c == '\u{8}' {
        seq!['\\', 'b']
    } else if c == '\u{c}' {
        seq!['\\', 'f']
    } else if c == '\n' {
        seq!['\\', 'n']
    } else if c == '\r' {
        seq!['\\', 'r']
    } else if c == '\t' {
        seq!['\\', 't']
    } else if (c as u32) < 32 {
        seq![
            '\\',
            'u',
            '0',
            '0',
            hex_digit((c as u32) as int / 16),
            hex_digit((c as u32) as int % 16),
        ]
    } else {
        seq![c]
    }
}

/// The text of `s` inside a JSON string.
pub open spec fn json_escape(s: Seq<char>) -> Seq<char>
    decreases s.len(),
{
    if s.len() == 0 {
        seq![]
    } else {
        escape_char(s[0]) + json_escape(s.drop_first())
    }
}

pub proof fn lemma_escape_concat(a: Seq<char>, b: Seq<char>)
    ensures
        json_escape(a + b) == json_escape(a) + json_escape(b),
    decreases a.len(),
{
    if a.len() == 0 {
        assert(a + b =~= b);
        assert(json_escape(a) =~= seq![]);
        assert(json_escape(a) + json_escape(b) =~= json_escape(b));
    } else {
        assert((a + b).drop_first() =~= a.drop_first() + b);
        lemma_escape_concat(a.drop_first(), b);
        assert((a + b)[0] == a[0]);
        assert(json_escape(a + b) =~= json_escape(a) + json_escape(b));
    }
}

proof fn lemma_escape_char_prefix_free(c1: char, c2: char, r1: Seq<char>, r2: Seq<char>)
    requires
        escape_char(c1) + r1 == escape_char(c2) + r2,
    ensures
        c1 == c2,
        r1 == r2,
{
    let x = escape_char(c1) + r1;
    let e1 = escape_char(c1);
    let e2 = escape_char(c2);
    assert(x[0] == e1[0] && x[0] == e2[0]);
    if e1.len() >= 2 && e2.len() >= 2 {
        assert(x[1] == e1[1] && x[1] == e2[1]);
        if e1.len() == 6 && e2.len() == 6 {
            assert(x[4] == e1[4] && x[4] == e2[4]);
            assert(x[5] == e1[5] && x[5] == e2[5]);
            assert(c1 as u32 == c2 as u32);
        }
    }
    assert(c1 == c2);
    assert(r1 =~= x.subrange(e1.len() as int, x.len() as int));
    assert(r2 =~= x.subrange(e2.len() as int, x.len() as int));
}

/// Distinct texts have distinct escapes.
pub proof fn lemma_escape_injective(a: Seq<char>, b: Seq<char>)
    requires
        json_escape(a) == json_escape(b),
    ensures
        a == b,
    decreases a.len(),
{
    if a.len() == 0 {
        if b.len() > 0 {
            assert(json_escape(b).len() >= escape_char(b[0]).len());
        }
        assert(a =~= b);
    } else {
        if b.len() == 0 {
            assert(json_escape(a).len() >= escape_char(a[0]).len());
        } else {
            lemma_escape_char_prefix_free(
                a[0],
                b[0],
                json_escape(a.drop_first()),
                json_escape(b.drop_first()),
            );
            lemma_escape_injective(a.drop_first(), b.drop_first());
            assert(a =~= seq![a[0]] + a.drop_first());
            assert(b =~= seq![b[0]] + b.drop_first());
        }
    }
}

proof fn lemma_same_code(a: char, b: char)
    requires
        a as u32 == b as u32,
    ensures
        a == b,
{
}

fn hex_str(d: u32) -> (r: &'static str)
    requires
        d < 16,
    ensures
        r@ == seq![hex_digit(d as int)],
{
    let digits = "0123456789abcdef";
    proof {
        reveal_strlit("0123456789abcdef");
    }
    let r = digits.substring_char(d as usize, d as usize + 1);
    proof {
        assert(r@ =~= seq![hex_digit(d as int)]);
    }
    r
}

fn hex_value(c: char) -> (r: Option<u32>)
    ensures
        forall|d: int| 0 <= d < 16 && c == hex_digit(d) ==> r == Some(d as u32),
        r matches Some(d) ==> d < 16 && c == hex_digit(d as int),
{
    if '0' <= c && c <= '9' {
        Some(c as u32 - 48)
    } else if 'a' <= c && c <= 'f' {
        Some(c as u32 - 87)
    } else {
        None
    }
}

/// The one-character text of the control character `n`.
fn control_str(n: u32) -> (r: &'static str)
    requires
        n < 32,
    ensures
        r@.len() == 1,
        r@[0] as u32 == n,
{
    let all =
        "\u{0}\u{1}\u{2}\u{3}\u{4}\u{5}\u{6}\u{7}\u{8}\u{9}\u{a}\u{b}\u{c}\u{d}\u{e}\u{f}\u{10}\u{11}\u{12}\u{13}\u{14}\u{15}\u{16}\u{17}\u{18}\u{19}\u{1a}\u{1b}\u{1c}\u{1d}\u{1e}\u{1f}";
    proof {
        reveal_strlit(
            "\u{0}\u{1}\u{2}\u{3}\u{4}\u{5}\u{6}\u{7}\u{8}\u{9}\u{a}\u{b}\u{c}\u{d}\u{e}\u{f}\u{10}\u{11}\u{12}\u{13}\u{14}\u{15}\u{16}\u{17}\u{18}\u{19}\u{1a}\u{1b}\u{1c}\u{1d}\u{1e}\u{1f}",
        );
    }
    all.substring_char(n as usize, n as usize + 1)
}

/// The text of the character that `\d` stands for.
fn short_escape_str(d: char) -> (r: Option<&'static str>)
    ensures
        match short_escape(d) {
            Some(c) => r matches Some(t) && t@ == seq![c],
            None => r is None,
        },
{
    if d == '"' {
        proof {
            reveal_strlit("\"");
            assert("\""@ =~= seq![short_escape(d)->0]);
        }
        Some("\"")
    } else if d == '\\' {
        proof {
            reveal_strlit("\\");
            assert("\\"@ =~= seq![short_escape(d)->0]);
        }
        Some("\\")
    } else if d == 'b' {
        proof {
            reveal_strlit("\u{8}");
            assert("\u{8}"@ =~= seq![short_escape(d)->0]);
        }
        Some("\u{8}")
    } else if d == 'f' {
        proof {
            reveal_strlit("\u{c}");
            assert("\u{c}"@ =~= seq![short_escape(d)->0]);
        }
        Some("\u{c}")
    } else if d == 'n' {
        proof {
            reveal_strlit("\n");
            assert("\n"@ =~= seq![short_escape(d)->0]);
        }
        Some("\n")
    } else if d == 'r' {
        proof {
            reveal_strlit("\r");
            assert("\r"@ =~= seq![short_escape(d)->0]);
        }
        Some("\r")
    } else if d == 't' {
        proof {
            reveal_strlit("\t");
            assert("\t"@ =~= seq![short_escape(d)->0]);
        }
        Some("\t")
    } else {
        None
    }
}

proof fn lemma_escape_push(a: Seq<char>, c: char)
    ensures
        json_escape(a + seq![c]) == json_escape(a) + escape_char(c),
{
    lemma_escape_concat(a, seq![c]);
    lemma_escape_one(c);
}

proof fn lemma_escape_one(c: char)
    ensures
        json_escape(seq![c]) == escape_char(c),
{
    assert(seq![c].drop_first() =~= Seq::<char>::empty());
    assert(json_escape(Seq::<char>::empty()) =~= seq![]);
    assert(json_escape(seq![c]) =~= escape_char(c));
}

/// `s` as the inside of a JSON string.
pub fn escape_json(s: &str) -> (r: String)
    ensures
        r@ == json_escape(s@),
{
    let v = chars_of(s);
    let n = v.len();
    let mut out = String::new();
    let mut i: usize = 0;
    proof {
        assert(v@.subrange(0, 0) =~= Seq::<char>::empty());
        assert(json_escape(Seq::<char>::empty()) =~= seq![]);
    }
    while i < n
        invariant
            v@ == s@,
            n == v@.len(),
            i <= n,
            out@ == json_escape(v@.subrange(0, i as int)),
        decreases n - i,
    {
        let c = v[i];
        let ghost before = out@;
        if c == '"' {
            out.append("\\\"");
            proof {
                reveal_strlit("\\\"");
                assert("\\\""@ =~= escape_char(c));
            }
        } else if c == '\\' {
            out.append("\\\\");
            proof {
                reveal_strlit("\\\\");
                assert("\\\\"@ =~= escape_char(c));
            }
        } else if c == '\u{8}' {
            out.append("\\b");
            proof {
                reveal_strlit("\\b");
                assert("\\b"@ =~= escape_char(c));
            }
        } else if c == '\u{c}' {
            out.append("\\f");
            proof {
                reveal_strlit("\\f");
                assert("\\f"@ =~= escape_char(c));
            }
        } else if c == '\n' {
            out.append("\\n");
            proof {
                reveal_strlit("\\n");
                assert("\\n"@ =~= escape_char(c));
            }
        } else if c == '\r' {
            out.append("\\r");
            proof {
                reveal_strlit("\\r");
                assert("\\r"@ =~= escape_char(c));
            }
        } else if c == '\t' {
            out.append("\\t");
            proof {
                reveal_strlit("\\t");
                assert("\\t"@ =~= escape_char(c));
            }
        } else if (c as u32) < 32 {
            let code = c as u32;
            out.append("\\u00");
            out.append(hex_str(code / 16));
            out.append(hex_str(code % 16));
            proof {
                reveal_strlit("\\u00");
                assert(out@ =~= before + escape_char(c));
            }
        } else {
            out.append(s.substring_char(i, i + 1));
            proof {
                assert(s@.subrange(i as int, i + 1) =~= escape_char(c));
            }
        }
        proof {
            assert(out@ =~= before + escape_char(c));
            lemma_escape_concat(v@.subrange(0, i as int), seq![c]);
            lemma_escape_one(c);
            assert(v@.subrange(0, i + 1) =~= v@.subrange(0, i as int) + seq![c]);
        }
        i += 1;
    }
    proof {
        assert(v@.subrange(0, n as int) =~= s@);
    }
    out
}

/// The text whose escape is `seg`; `None` for text that holds an escape
/// this form does not write.
pub fn unescape_json(seg: &str) -> (r: Option<String>)
    ensures
        forall|s: Seq<char>| #[trigger] json_escape(s) == seg@ ==> (r matches Some(o) && o@ == s),
        r matches Some(o) ==> json_escape(o@) == seg@,
{
    let ghost w: Option<Seq<char>> = if exists|s: Seq<char>| #[trigger] json_escape(s) == seg@ {
        Some(choose|s: Seq<char>| #[trigger] json_escape(s) == seg@)
    } else {
        None
    };
    let v = chars_of(seg);
    let n = v.len();
    let mut out = String::new();
    let mut j: usize = 0;
    let ghost mut k: int = 0;
    proof {
        assert(out@ =~= Seq::<char>::empty());
        assert(json_escape(Seq::<char>::empty()) =~= seq![]);
        assert(v@.subrange(0, 0) =~= Seq::<char>::empty());
        if let Some(s) = w {
            assert(v@.subrange(0, n as int) =~= v@);
            assert(s.subrange(0, s.len() as int) =~= s);
            assert(s.subrange(0, 0) =~= Seq::<char>::empty());
        }
    }
    while j < n
        invariant
            v@ == seg@,
            n == v@.len(),
            j <= n,
            w is None ==> forall|s: Seq<char>| #[trigger] json_escape(s) != seg@,
            json_escape(out@) == v@.subrange(0, j as int),
            w matches Some(s) ==> 0 <= k <= s.len() && v@.subrange(j as int, n as int)
                == json_escape(s.subrange(k, s.len() as int)) && out@ == s.subrange(0, k),
        decreases n - j,
    {
        let ghost before = out@;
        let ghost e: Seq<char> = match w {
            Some(s) => escape_char(s[k]),
            None => seq![],
        };
        proof {
            assert(w matches Some(s) ==> {
                &&& k < s.len()
                &&& e == escape_char(s[k])
                &&& j + e.len() <= n
                &&& forall|i: int| 0 <= i < e.len() ==> v@[j + i] == #[trigger] e[i]
                &&& v@.subrange(j + e.len(), n as int) == json_escape(
                    s.subrange(k + 1, s.len() as int),
                )
                &&& s.subrange(0, k + 1) == s.subrange(0, k) + seq![s[k]]
            }) by {
                if let Some(s) = w {
                    let rest = s.subrange(k, s.len() as int);
                    if rest.len() == 0 {
                        assert(json_escape(rest) =~= seq![]);
                        assert(false);
                    }
                    assert(rest.drop_first() =~= s.subrange(k + 1, s.len() as int));
                    assert(rest[0] == s[k]);
                    let tail = v@.subrange(j as int, n as int);
                    assert(tail == e + json_escape(s.subrange(k + 1, s.len() as int)));
                    assert forall|i: int| 0 <= i < e.len() implies v@[j + i] == #[trigger] e[i] by {
                        assert(tail[i] == v@[j + i]);
                    }
                    assert(v@.subrange(j + e.len(), n as int) =~= tail.subrange(
                        e.len() as int,
                        n - j,
                    ));
                    assert(tail.subrange(e.len() as int, n - j) =~= json_escape(
                        s.subrange(k + 1, s.len() as int),
                    ));
                    assert(s.subrange(0, k + 1) =~= s.subrange(0, k) + seq![s[k]]);
                }
            }
        }
        let c = v[j];
        proof {
            assert(w matches Some(s) ==> e[0] == c) by {
                if let Some(s) = w {
                    assert(v@[j + 0] == e[0]);
                }
            }
        }
        if c != '\\' {
            proof {
                assert(w matches Some(s) ==> e.len() == 1 && s[k] == c);
            }
            if c == '"' || (c as u32) < 32 {
                return None;
            }
            out.append(seg.substring_char(j, j + 1));
            proof {
                assert(out@ =~= before + seq![c]);
                lemma_escape_push(before, c);
                assert(v@.subrange(0, j + 1) =~= v@.subrange(0, j as int) + escape_char(c));
            }
            j += 1;
        } else {
            proof {
                assert(w matches Some(s) ==> needs_escape(s[k]) && e.len() >= 2);
            }
            if n - j < 2 {
                return None;
            }
            let d = v[j + 1];
            proof {
                assert(w matches Some(s) ==> e[1] == d) by {
                    if let Some(s) = w {
                        assert(v@[j + 1] == e[1]);
                    }
                }
            }
            if d == 'u' {
                proof {
                    assert(w matches Some(s) ==> e.len() == 6 && (s[k] as u32) < 32 && e[2] == '0'
                        && e[3] == '0' && e[4] == hex_digit((s[k] as u32) as int / 16) && e[5]
                        == hex_digit((s[k] as u32) as int % 16) && v@[j + 2] == e[2] && v@[j + 3]
                        == e[3] && v@[j + 4] == e[4] && v@[j + 5] == e[5]);
                }
                if n - j < 6 || v[j + 2] != '0' || v[j + 3] != '0' {
                    return None;
                }
                let high = match hex_value(v[j + 4]) {
                    Some(h) => h,
                    None => {
                        return None;
                    },
                };
                let low = match hex_value(v[j + 5]) {
                    Some(h) => h,
                    None => {
                        return None;
                    },
                };
                if high > 1 {
                    return None;
                }
                let code = high * 16 + low;
                proof {
                    assert(w matches Some(s) ==> code == s[k] as u32 && code != 8 && code != 9
                        && code != 10 && code != 12 && code != 13) by {
                        if let Some(s) = w {
                            let sc = (s[k] as u32) as int;
                            assert(v@[j + 4] == hex_digit(sc / 16));
                            assert(v@[j + 5] == hex_digit(sc % 16));
                            assert(high as int == sc / 16);
                            assert(low as int == sc % 16);
                            if sc == 8 {
                                lemma_same_code(s[k], '\u{8}');
                            } else if sc == 9 {
                                lemma_same_code(s[k], '\t');
                            } else if sc == 10 {
                                lemma_same_code(s[k], '\n');
                            } else if sc == 12 {
                                lemma_same_code(s[k], '\u{c}');
                            } else if sc == 13 {
                                lemma_same_code(s[k], '\r');
                            }
                        }
                    }
                }
                if code == 8 || code == 9 || code == 10 || code == 12 || code == 13 {
                    return None;
                }
                let piece = control_str(code);
                out.append(piece);
                proof {
                    assert(out@ =~= before + seq![piece@[0]]);
                    let c2 = piece@[0];
                    assert(escape_char(c2) =~= seq!['\\', 'u', '0', '0', v@[j + 4], v@[j + 5]]);
                    lemma_escape_push(before, c2);
                    assert(v@.subrange(0, j + 6) =~= v@.subrange(0, j as int) + escape_char(c2));
                    assert(w matches Some(s) ==> piece@[0] == s[k]) by {
                        if let Some(s) = w {
                            let code = (s[k] as u32) as int;
                            assert(v@[j + 4] == hex_digit(code / 16));
                            assert(v@[j + 5] == hex_digit(code % 16));
                            assert(high as int == code / 16);
                            assert(low as int == code % 16);
                            assert(piece@[0] as u32 == s[k] as u32);
                            lemma_same_code(piece@[0], s[k]);
                        }
                    }
                }
                j += 6;
            } else {
                let piece = match short_escape_str(d) {
                    Some(p) => p,
                    None => {
                        return None;
                    },
                };
                out.append(piece);
                proof {
                    assert(out@ =~= before + piece@);
                    assert(w matches Some(s) ==> e.len() == 2 && short_escape(d) == Some(s[k]));
                    let c2 = short_escape(d)->0;
                    assert(piece@ =~= seq![c2]);
                    assert(escape_char(c2) =~= seq!['\\', d]);
                    lemma_escape_push(before, c2);
                    assert(v@.subrange(0, j + 2) =~= v@.subrange(0, j as int) + escape_char(c2));
                }
                j += 2;
            }
        }
        proof {
            if let Some(s) = w {
                k = k + 1;
            }
        }
    }
    proof {
        if let Some(s) = w {
            let rest = s.subrange(k, s.len() as int);
            if rest.len() > 0 {
                assert(json_escape(rest).len() >= escape_char(rest[0]).len());
                assert(false);
            }
            assert(out@ =~= s);
        }
        assert(v@.subrange(0, n as int) =~= seg@);
        assert forall|s: Seq<char>| #[trigger] json_escape(s) == seg@ implies w == Some(s) by {
            let s0 = w->0;
            lemma_escape_injective(s, s0);
        }
    }
    Some(out)
}

} // verus!
