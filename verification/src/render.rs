//! Frame rendering: the text of one progress frame as a mathematical
//! sequence of characters, and verified builders that produce exactly
//! that text.

use vstd::prelude::*;

verus! {

/// The character for a digit value below ten.
pub open spec fn digit_char(d: nat) -> char
    recommends
        d < 10,
{
    if d == 0 {
        '0'
    } else if d == 1 {
        '1'
    } else if d == 2 {
        '2'
    } else if d == 3 {
        '3'
    } else if d == 4 {
        '4'
    } else if d == 5 {
        '5'
    } else if d == 6 {
        '6'
    } else if d == 7 {
        '7'
    } else if d == 8 {
        '8'
    } else {
        '9'
    }
}

/// The decimal rendering of `n`, most significant digit first, with no
/// leading zeros (a single `'0'` for zero).
pub open spec fn dec_chars(n: nat) -> Seq<char>
    decreases n,
{
    if n < 10 {
        seq![digit_char(n)]
    } else {
        dec_chars(n / 10).push(digit_char(n % 10))
    }
}

/// `n` copies of the character `c` (none when `n` is negative).
pub open spec fn repeat_char(c: char, n: int) -> Seq<char> {
    Seq::new(if n < 0 { 0 } else { n as nat }, |j: int| c)
}

/// `s` padded on the left with spaces to at least `w` characters.
pub open spec fn left_pad(s: Seq<char>, w: int) -> Seq<char> {
    repeat_char(' ', w - s.len()) + s
}

/// The eight partial-fill glyphs, from empty (0/8) to seven eighths.
pub open spec fn bar_glyphs() -> Seq<char> {
    seq![' ', '▏', '▎', '▍', '▌', '▋', '▊', '▉']
}

/// The four spinner glyphs, in rotation order.
pub open spec fn spinner_glyphs() -> Seq<char> {
    seq!['-', '\\', '|', '/']
}

/// The number of character cells of a bar of the given width: eight
/// render cells per width unit, one per partial-fill glyph.
pub open spec fn render_width(width: nat) -> nat {
    width * 8
}

/// The progress percentage in hundredths, rounded to nearest: the value
/// printed as `ii.ff` once split at the last two digits.
pub open spec fn percent_hundredths(i: nat, b: nat) -> nat
    recommends
        b > 0,
{
    (20000 * i + b) / (2 * b)
}

/// The six-or-more character percentage field. A zero bound has no
/// meaningful percentage; its field reads `"   NaN"`, kept exactly so.
pub open spec fn percent_chars(i: nat, b: nat) -> Seq<char> {
    if b == 0 {
        seq![' ', ' ', ' ', 'N', 'a', 'N']
    } else {
        let h = percent_hundredths(i, b);
        left_pad(
            dec_chars(h / 100) + seq!['.', digit_char((h / 10) % 10), digit_char(h % 10)],
            6,
        )
    }
}

/// How many cells of the bar are completely filled: the floor of
/// `i * renderWidth / b`, clamped to the render width so that a counter
/// past the bound cannot overrun the bar. A zero bound fills nothing
/// before the first pull and everything after it.
pub open spec fn whole_units(i: nat, b: nat, width: nat) -> nat {
    let w8 = render_width(width);
    if b == 0 {
        if i == 0 {
            0
        } else {
            w8
        }
    } else if i * w8 / b > w8 {
        w8
    } else {
        i * w8 / b
    }
}

/// The ceiling of `renderWidth / b`: the number of counter steps that
/// share one render cell, used to rotate the partial-fill glyph.
pub open spec fn ceil_step(b: nat, width: nat) -> nat
    recommends
        b > 0,
{
    (((render_width(width) + b) - 1) / (b as int)) as nat
}

/// Which partial-fill glyph follows the filled cells. The rotation index
/// is reduced modulo the glyph count, so it can never leave the table.
pub open spec fn part_index(i: nat, b: nat, width: nat) -> nat {
    if b == 0 {
        0
    } else {
        (i % ceil_step(b, width)) % 8
    }
}

/// One bounded-mode frame: ` pp.pp% [`, the filled cells, one partial
/// glyph and blank cells (omitted once the bar is complete), then `]`.
pub open spec fn bounded_frame(i: nat, b: nat, width: nat) -> Seq<char> {
    let w8 = render_width(width);
    let whole = whole_units(i, b, width);
    let head = seq![' '] + percent_chars(i, b) + seq!['%', ' ', '['];
    if whole == w8 {
        head + repeat_char('█', w8 as int) + seq![']']
    } else {
        head + repeat_char('█', whole as int) + seq![bar_glyphs()[part_index(i, b, width) as int]]
            + repeat_char(' ', w8 - whole - 1) + seq![']']
    }
}

/// One unbounded-mode frame: the count right-aligned to eight cells,
/// the marker `it `, and the rotating spinner glyph.
pub open spec fn spinner_frame(i: nat) -> Seq<char> {
    left_pad(dec_chars(i), 8) + seq!['i', 't', ' ', spinner_glyphs()[(i % 4) as int]]
}

/// The frame for counter `i`: a bar when a bound is known, a spinner
/// otherwise.
pub open spec fn frame_chars(i: nat, bound: Option<usize>, width: nat) -> Seq<char> {
    match bound {
        Some(b) => bounded_frame(i, b as nat, width),
        None => spinner_frame(i),
    }
}

/// The decimal rendering never has fewer than one character, grows one
/// character per decimal magnitude, and consists of digits only.
pub proof fn lemma_dec_chars_len(n: nat)
    ensures
        dec_chars(n).len() >= 1,
        n < 10 ==> dec_chars(n).len() == 1,
        10 <= n < 100 ==> dec_chars(n).len() == 2,
        100 <= n < 1000 ==> dec_chars(n).len() == 3,
        1000 <= n < 10000 ==> dec_chars(n).len() == 4,
        10000 <= n < 100000 ==> dec_chars(n).len() == 5,
        100000 <= n < 1000000 ==> dec_chars(n).len() == 6,
        1000000 <= n < 10000000 ==> dec_chars(n).len() == 7,
        100 <= n ==> dec_chars(n).len() >= 3,
        10000000 <= n ==> dec_chars(n).len() >= 8,
        forall|k: int| 0 <= k < dec_chars(n).len() ==> '0' <= #[trigger] dec_chars(n)[k] <= '9',
    decreases n,
{
    if n >= 10 {
        lemma_dec_chars_len(n / 10);
    }
}

/// Append `n` spaces to `s`.
fn push_spaces(s: &mut String, n: usize)
    ensures
        final(s)@ == old(s)@ + repeat_char(' ', n as int),
{
    let mut j: usize = 0;
    while j < n
        invariant
            j <= n,
            s@ == old(s)@ + repeat_char(' ', j as int),
        decreases n - j,
    {
        s.append(" ");
        proof {
            reveal_strlit(" ");
            assert(repeat_char(' ', j as int).push(' ') =~= repeat_char(' ', j + 1 as int));
        }
        j = j + 1;
    }
    proof {
        assert(s@ =~= old(s)@ + repeat_char(' ', n as int));
    }
}

/// Append the decimal rendering of `n` to `s`.
fn push_dec(s: &mut String, n: u128)
    ensures
        final(s)@ == old(s)@ + dec_chars(n as nat),
    decreases n,
{
    if n >= 10 {
        push_dec(s, n / 10);
    }
    let d: u128 = n % 10;
    if d == 0 {
        s.append("0");
        proof { reveal_strlit("0"); }
    } else if d == 1 {
        s.append("1");
        proof { reveal_strlit("1"); }
    } else if d == 2 {
        s.append("2");
        proof { reveal_strlit("2"); }
    } else if d == 3 {
        s.append("3");
        proof { reveal_strlit("3"); }
    } else if d == 4 {
        s.append("4");
        proof { reveal_strlit("4"); }
    } else if d == 5 {
        s.append("5");
        proof { reveal_strlit("5"); }
    } else if d == 6 {
        s.append("6");
        proof { reveal_strlit("6"); }
    } else if d == 7 {
        s.append("7");
        proof { reveal_strlit("7"); }
    } else if d == 8 {
        s.append("8");
        proof { reveal_strlit("8"); }
    } else {
        s.append("9");
        proof { reveal_strlit("9"); }
    }
    proof {
        if n < 10 {
            assert(s@ =~= old(s)@ + dec_chars(n as nat));
        } else {
            assert(s@ =~= old(s)@ + dec_chars(n as nat));
        }
    }
}

/// Append `n` full-block cells to `s`.
fn push_blocks(s: &mut String, n: usize)
    ensures
        final(s)@ == old(s)@ + repeat_char('█', n as int),
{
    let mut j: usize = 0;
    while j < n
        invariant
            j <= n,
            s@ == old(s)@ + repeat_char('█', j as int),
        decreases n - j,
    {
        s.append("█");
        proof {
            reveal_strlit("█");
            assert(repeat_char('█', j as int).push('█') =~= repeat_char('█', j + 1 as int));
        }
        j = j + 1;
    }
    proof {
        assert(s@ =~= old(s)@ + repeat_char('█', n as int));
    }
}

/// Append the partial-fill glyph with the given table index to `s`.
fn push_bar_glyph(s: &mut String, idx: usize)
    requires
        idx < 8,
    ensures
        final(s)@ == old(s)@ + seq![bar_glyphs()[idx as int]],
{
    if idx == 0 {
        s.append(" ");
        proof { reveal_strlit(" "); }
    } else if idx == 1 {
        s.append("▏");
        proof { reveal_strlit("▏"); }
    } else if idx == 2 {
        s.append("▎");
        proof { reveal_strlit("▎"); }
    } else if idx == 3 {
        s.append("▍");
        proof { reveal_strlit("▍"); }
    } else if idx == 4 {
        s.append("▌");
        proof { reveal_strlit("▌"); }
    } else if idx == 5 {
        s.append("▋");
        proof { reveal_strlit("▋"); }
    } else if idx == 6 {
        s.append("▊");
        proof { reveal_strlit("▊"); }
    } else {
        s.append("▉");
        proof { reveal_strlit("▉"); }
    }
    proof {
        assert(s@ =~= old(s)@ + seq![bar_glyphs()[idx as int]]);
    }
}

/// Append the spinner glyph with the given table index to `s`.
fn push_spinner_glyph(s: &mut String, idx: usize)
    requires
        idx < 4,
    ensures
        final(s)@ == old(s)@ + seq![spinner_glyphs()[idx as int]],
{
    if idx == 0 {
        s.append("-");
        proof { reveal_strlit("-"); }
    } else if idx == 1 {
        s.append("\\");
        proof { reveal_strlit("\\"); }
    } else if idx == 2 {
        s.append("|");
        proof { reveal_strlit("|"); }
    } else {
        s.append("/");
        proof { reveal_strlit("/"); }
    }
    proof {
        assert(s@ =~= old(s)@ + seq![spinner_glyphs()[idx as int]]);
    }
}

/// Append the percentage field for counter `i` over bound `b` to `s`:
/// the rounded value with two decimal digits, space-padded on the left
/// to at least six characters.
fn push_percent(s: &mut String, i: usize, b: usize)
    requires
        b >= 1,
    ensures
        final(s)@ == old(s)@ + percent_chars(i as nat, b as nat),
{
    let h: u128 = (20000u128 * (i as u128) + (b as u128)) / (2u128 * (b as u128));
    proof {
        assert(h as nat == percent_hundredths(i as nat, b as nat));
    }
    let q: u128 = h / 100;
    proof {
        lemma_dec_chars_len(q as nat);
    }
    if q < 10 {
        push_spaces(s, 2);
    } else if q < 100 {
        push_spaces(s, 1);
    }
    push_dec(s, q);
    s.append(".");
    push_dec(s, (h / 10) % 10);
    push_dec(s, h % 10);
    proof {
        reveal_strlit(".");
        let core = dec_chars(q as nat)
            + seq!['.', digit_char(((h / 10) % 10) as nat), digit_char((h % 10) as nat)];
        assert(dec_chars(((h / 10) % 10) as nat) =~= seq![digit_char(((h / 10) % 10) as nat)]);
        assert(dec_chars((h % 10) as nat) =~= seq![digit_char((h % 10) as nat)]);
        assert(s@ =~= old(s)@ + left_pad(core, 6));
    }
}

/// Build the frame for counter `i`, bound `bound` and bar width `width`:
/// exactly the characters of [`frame_chars`].
pub fn format_frame(i: usize, bound: Option<usize>, width: usize) -> (r: String)
    requires
        width >= 1,
        width * 8 <= usize::MAX,
    ensures
        r@ == frame_chars(i as nat, bound, width as nat),
{
    let mut s = String::new();
    match bound {
        Some(b) => {
            let w8: usize = width * 8;
            s.append(" ");
            proof { reveal_strlit(" "); }
            if b == 0 {
                s.append("   NaN");
                proof {
                    reveal_strlit("   NaN");
                    assert(s@ =~= seq![' '] + percent_chars(i as nat, 0));
                }
            } else {
                push_percent(&mut s, i, b);
            }
            s.append("% [");
            proof {
                reveal_strlit("% [");
                assert(s@ =~= seq![' '] + percent_chars(i as nat, b as nat)
                    + seq!['%', ' ', '[']);
            }
            let whole: usize = if b == 0 {
                if i == 0 {
                    0
                } else {
                    w8
                }
            } else {
                proof {
                    vstd::arithmetic::mul::lemma_mul_upper_bound(
                        i as int,
                        0xffff_ffff_ffff_ffff,
                        w8 as int,
                        0xffff_ffff_ffff_ffff,
                    );
                }
                let qw: u128 = ((i as u128) * (w8 as u128)) / (b as u128);
                if qw > (w8 as u128) {
                    w8
                } else {
                    qw as usize
                }
            };
            proof {
                assert(whole as nat == whole_units(i as nat, b as nat, width as nat));
            }
            push_blocks(&mut s, whole);
            if whole == w8 {
                s.append("]");
                proof {
                    reveal_strlit("]");
                    assert(s@ =~= bounded_frame(i as nat, b as nat, width as nat));
                }
            } else {
                let idx: usize = if b == 0 {
                    0
                } else {
                    let cs: u128 = ((w8 as u128) + (b as u128)) - 1;
                    let cs: u128 = cs / (b as u128);
                    proof {
                        assert(cs >= 1) by {
                            vstd::arithmetic::div_mod::lemma_div_is_ordered(
                                b as int,
                                w8 + b - 1,
                                b as int,
                            );
                            vstd::arithmetic::div_mod::lemma_div_by_self(b as int);
                        }
                    }
                    (((i as u128) % cs) % 8) as usize
                };
                proof {
                    assert(idx as nat == part_index(i as nat, b as nat, width as nat));
                }
                push_bar_glyph(&mut s, idx);
                push_spaces(&mut s, (w8 - whole) - 1);
                s.append("]");
                proof {
                    reveal_strlit("]");
                    assert(s@ =~= bounded_frame(i as nat, b as nat, width as nat));
                }
            }
        },
        None => {
            proof {
                lemma_dec_chars_len(i as nat);
            }
            if i < 10 {
                push_spaces(&mut s, 7);
            } else if i < 100 {
                push_spaces(&mut s, 6);
            } else if i < 1000 {
                push_spaces(&mut s, 5);
            } else if i < 10000 {
                push_spaces(&mut s, 4);
            } else if i < 100000 {
                push_spaces(&mut s, 3);
            } else if i < 1000000 {
                push_spaces(&mut s, 2);
            } else if i < 10000000 {
                push_spaces(&mut s, 1);
            }
            push_dec(&mut s, i as u128);
            s.append("it ");
            push_spinner_glyph(&mut s, i % 4);
            proof {
                reveal_strlit("it ");
                assert(s@ =~= spinner_frame(i as nat));
            }
        },
    }
    s
}

/// No position of `s` holds the character `c`.
pub open spec fn has_no_char(s: Seq<char>, c: char) -> bool {
    forall|k: int| 0 <= k < s.len() ==> s[k] != c
}

proof fn lemma_has_no_char_add(a: Seq<char>, b: Seq<char>, c: char)
    requires
        has_no_char(a, c),
        has_no_char(b, c),
    ensures
        has_no_char(a + b, c),
{
    assert forall|k: int| 0 <= k < (a + b).len() implies (a + b)[k] != c by {
        if k < a.len() {
            assert((a + b)[k] == a[k]);
        } else {
            assert((a + b)[k] == b[k - a.len()]);
        }
    }
}

/// Law: however far the counter runs past the bound, the filled cells
/// never exceed the render width and the partial-glyph index never
/// leaves the eight-entry glyph table.
pub proof fn lemma_no_out_of_range(i: nat, b: nat, width: nat)
    ensures
        whole_units(i, b, width) <= render_width(width),
        part_index(i, b, width) < 8,
{
}

/// Law: once the counter reaches the bound, the frame is the completion
/// frame: the percentage field reads exactly `100.00`, and between the
/// brackets stand only full-block cells — no partial glyph and no blank
/// cells.
pub proof fn lemma_completion_frame(b: nat, width: nat)
    requires
        b >= 1,
        width >= 1,
    ensures
        whole_units(b, b, width) == render_width(width),
        percent_hundredths(b, b) == 10000,
        bounded_frame(b, b, width) == seq![' ', '1', '0', '0', '.', '0', '0', '%', ' ', '[']
            + repeat_char('█', render_width(width) as int) + seq![']'],
{
    let w8 = render_width(width);
    assert(w8 >= 8);
    assert(b * w8 / b == w8) by {
        vstd::arithmetic::div_mod::lemma_div_multiples_vanish(w8 as int, b as int);
        assert(b * w8 == (b as int) * (w8 as int)) by (nonlinear_arith);
        assert((b as int) * (w8 as int) == (w8 as int) * (b as int)) by (nonlinear_arith);
    }
    assert(percent_hundredths(b, b) == 10000) by {
        vstd::arithmetic::div_mod::lemma_fundamental_div_mod_converse(
            20000 * (b as int) + b,
            2 * (b as int),
            10000,
            b as int,
        );
    }
    assert(percent_chars(b, b) =~= seq!['1', '0', '0', '.', '0', '0']) by {
        assert(dec_chars(1) =~= seq!['1']);
        assert(dec_chars(10) =~= dec_chars(1).push('0'));
        assert(dec_chars(100) =~= dec_chars(10).push('0'));
    }
    assert(bounded_frame(b, b, width) =~= seq![' ', '1', '0', '0', '.', '0', '0', '%', ' ', '[']
        + repeat_char('█', w8 as int) + seq![']']);
}

/// Law: an unbounded frame always carries the marker `it` directly after
/// the count — the characters `'i'` and `'t'` stand side by side — and
/// never a percent sign.
pub proof fn lemma_spinner_frame_shape(i: nat)
    ensures
        spinner_frame(i).len() >= 12,
        spinner_frame(i)[spinner_frame(i).len() - 4] == 'i',
        spinner_frame(i)[spinner_frame(i).len() - 3] == 't',
        has_no_char(spinner_frame(i), '%'),
{
    lemma_dec_chars_len(i);
    let pad = repeat_char(' ', 8 - dec_chars(i).len());
    let head = pad + dec_chars(i);
    assert(has_no_char(pad, '%'));
    assert(has_no_char(dec_chars(i), '%'));
    lemma_has_no_char_add(pad, dec_chars(i), '%');
    let tail = seq!['i', 't', ' ', spinner_glyphs()[(i % 4) as int]];
    assert(has_no_char(tail, '%')) by {
        assert(spinner_glyphs()[(i % 4) as int] != '%');
    }
    lemma_has_no_char_add(head, tail, '%');
    assert(spinner_frame(i) == head + tail);
    assert(head.len() >= 8);
}

/// Law: a bounded frame always carries a percent sign directly after the
/// percentage field, and never the characters `'i'` or `'t'` — so no
/// spinner marker `it` can appear in it.
pub proof fn lemma_bounded_frame_shape(i: nat, b: nat, width: nat)
    requires
        width >= 1,
    ensures
        bounded_frame(i, b, width)[1 + percent_chars(i, b).len() as int] == '%',
        bounded_frame(i, b, width).contains('%'),
        has_no_char(bounded_frame(i, b, width), 'i'),
        has_no_char(bounded_frame(i, b, width), 't'),
{
    let w8 = render_width(width);
    let whole = whole_units(i, b, width);
    let pc = percent_chars(i, b);
    let head = seq![' '] + pc + seq!['%', ' ', '['];
    assert(whole <= w8);
    if b != 0 {
        lemma_dec_chars_len(percent_hundredths(i, b) / 100);
    }
    assert(has_no_char(pc, 'i') && has_no_char(pc, 't'));
    assert(has_no_char(head, 'i') && has_no_char(head, 't'));
    assert(head[1 + pc.len() as int] == '%');
    let frame = bounded_frame(i, b, width);
    if whole == w8 {
        assert(has_no_char(repeat_char('█', w8 as int) + seq![']'], 'i'));
        assert(has_no_char(repeat_char('█', w8 as int) + seq![']'], 't'));
        lemma_has_no_char_add(head, repeat_char('█', w8 as int) + seq![']'], 'i');
        lemma_has_no_char_add(head, repeat_char('█', w8 as int) + seq![']'], 't');
        assert(frame =~= head + (repeat_char('█', w8 as int) + seq![']']));
    } else {
        let part = bar_glyphs()[part_index(i, b, width) as int];
        assert(part != 'i' && part != 't') by {
            assert(part_index(i, b, width) < 8);
        }
        let rest = repeat_char('█', whole as int) + seq![part]
            + repeat_char(' ', w8 - whole - 1) + seq![']'];
        assert(has_no_char(repeat_char('█', whole as int), 'i'));
        assert(has_no_char(repeat_char(' ', w8 - whole - 1), 'i'));
        assert(has_no_char(repeat_char('█', whole as int), 't'));
        assert(has_no_char(repeat_char(' ', w8 - whole - 1), 't'));
        lemma_has_no_char_add(repeat_char('█', whole as int), seq![part], 'i');
        lemma_has_no_char_add(repeat_char('█', whole as int) + seq![part],
            repeat_char(' ', w8 - whole - 1), 'i');
        lemma_has_no_char_add(repeat_char('█', whole as int) + seq![part]
            + repeat_char(' ', w8 - whole - 1), seq![']'], 'i');
        lemma_has_no_char_add(repeat_char('█', whole as int), seq![part], 't');
        lemma_has_no_char_add(repeat_char('█', whole as int) + seq![part],
            repeat_char(' ', w8 - whole - 1), 't');
        lemma_has_no_char_add(repeat_char('█', whole as int) + seq![part]
            + repeat_char(' ', w8 - whole - 1), seq![']'], 't');
        lemma_has_no_char_add(head, rest, 'i');
        lemma_has_no_char_add(head, rest, 't');
        assert(frame =~= head + rest);
    }
    assert(frame[1 + pc.len() as int] == '%');
    assert(frame.contains('%')) by {
        assert(0 <= 1 + pc.len() < frame.len());
    }
}

/// Law: the percentage field is at least six characters, and the region
/// between the brackets of a bounded frame is always exactly the render
/// width — eight cells per width unit — whether the bar is partial or
/// complete.
pub proof fn lemma_bounded_frame_len(i: nat, b: nat, width: nat)
    requires
        width >= 1,
    ensures
        percent_chars(i, b).len() >= 6,
        bounded_frame(i, b, width).len() == percent_chars(i, b).len() + 5 + render_width(width),
{
    let w8 = render_width(width);
    let whole = whole_units(i, b, width);
    if b != 0 {
        lemma_dec_chars_len(percent_hundredths(i, b) / 100);
    }
    assert(whole <= w8);
}

} // verus!
