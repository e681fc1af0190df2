//! How the recognizer finds the parts of a sequence among the bytes.

use vstd::prelude::*;
use crate::ascii::decimal::{all_digits, decimal, decimal_value, is_numeral, lemma_decimal};
use crate::ascii::escapes::{Intermediate, Shape, BRACKET, EQUALS, QUESTION, SEMICOLON};
use crate::ascii::escapes::{render, SequenceView, ESC};
use crate::ascii::grammar::{
    csi_at, csi_effects, escape_at, field_end, fields, fields_from, intermediate_at,
    is_param_byte, lemma_escape_at, lemma_field_end, lemma_params_end, params_end, parse_all,
    parse_from, Recognized,
};

verus! {

/// Where `n` parameter bytes stand from `start` on and the byte after them
/// is none, or the input ends there, the parameters end after them.
pub proof fn lemma_params_run(input: Seq<u8>, start: int, n: int)
    requires
        0 <= start,
        0 <= n,
        start + n <= input.len(),
        forall|i: int| start <= i < start + n ==> is_param_byte(#[trigger] input[i]),
        start + n < input.len() ==> !is_param_byte(input[start + n]),
    ensures
        params_end(input, start) == start + n,
    decreases n,
{
    if n > 0 {
        lemma_params_run(input, start + 1, n - 1);
    }
}

/// Where no `;` stands among the `n` bytes from `from` on and the byte
/// after them is one, or the string ends there, the field ends after them.
pub proof fn lemma_field_run(s: Seq<u8>, from: int, n: int)
    requires
        0 <= from,
        0 <= n,
        from + n <= s.len(),
        forall|i: int| from <= i < from + n ==> #[trigger] s[i] != SEMICOLON,
        from + n < s.len() ==> s[from + n] == SEMICOLON,
    ensures
        field_end(s, from) == from + n,
    decreases n,
{
    if n > 0 {
        lemma_field_run(s, from + 1, n - 1);
    }
}

/// A digit string is one field.
pub proof fn lemma_fields_of_digits(s: Seq<u8>)
    requires
        all_digits(s),
    ensures
        fields(s) == seq![s],
{
    lemma_field_run(s, 0, s.len() as int);
    assert(s.subrange(0, s.len() as int) =~= s);
}

/// The fields of `s` from `from` on are the fields of what `s` holds from
/// `from` on.
pub proof fn lemma_fields_suffix(s: Seq<u8>, from: int)
    requires
        0 <= from <= s.len(),
    ensures
        fields_from(s, from) == fields(s.subrange(from, s.len() as int)),
    decreases s.len() - from,
{
    let tail = s.subrange(from, s.len() as int);
    let end = field_end(s, from);
    lemma_field_end(s, from);
    lemma_field_run(tail, 0, end - from);
    assert(field_end(tail, 0) == end - from);
    if end < s.len() {
        lemma_fields_suffix(s, end + 1);
        lemma_fields_suffix(tail, end - from + 1);
        assert(tail.subrange(end - from + 1, tail.len() as int) =~= s.subrange(
            end + 1,
            s.len() as int,
        ));
        assert(tail.subrange(0, end - from) =~= s.subrange(from, end));
    } else {
        assert(tail.subrange(0, tail.len() as int) =~= s.subrange(from, s.len() as int));
    }
}

/// The fields of a digit string, a `;` and a further string are the digit
/// string and the fields of the further string.
pub proof fn lemma_fields_cons(head: Seq<u8>, tail: Seq<u8>)
    requires
        all_digits(head),
    ensures
        fields(head + seq![SEMICOLON] + tail) == seq![head] + fields(tail),
{
    let s = head + seq![SEMICOLON] + tail;
    lemma_field_run(s, 0, head.len() as int);
    lemma_fields_suffix(s, head.len() as int + 1);
    assert(s.subrange(0, head.len() as int) =~= head);
    assert(s.subrange(head.len() as int + 1, s.len() as int) =~= tail);
}

impl Shape {
    /// Whether the parts can be told apart again in the bytes: parameters
    /// are parameter bytes, the final byte is none, and a sequence without
    /// intermediate and parameters does not end in `=` or `?`.
    pub open spec fn well_formed(self) -> bool {
        self.csi ==> {
            &&& forall|i: int|
                0 <= i < self.params.len() ==> is_param_byte(#[trigger] self.params[i])
            &&& !is_param_byte(self.last)
            &&& self.intermediate == Intermediate::Plain && self.params.len() == 0 ==> self.last
                != EQUALS && self.last != QUESTION
        }
    }
}

/// The recognizer takes a control sequence apart into the parts of which it
/// was made, whatever follows it.
pub proof fn lemma_frame(shape: Shape, rest: Seq<u8>)
    requires
        shape.csi,
        shape.well_formed(),
    ensures
        csi_at(shape.bytes() + rest, 2) == Some(
            Recognized {
                effects: csi_effects(shape.intermediate, shape.params, shape.last),
                next: shape.bytes().len() as int,
            },
        ),
{
    let input = shape.bytes() + rest;
    let skip = shape.intermediate.bytes().len() as int;
    let start = 2 + skip;
    let n = shape.params.len() as int;
    assert(input.len() >= start + n + 1);
    assert(forall|i: int| start <= i < start + n ==> input[i] == shape.params[i - start]);
    assert(input[start + n] == shape.last);
    assert(intermediate_at(input, 2) == shape.intermediate) by {
        if shape.intermediate == Intermediate::Plain {
            if n > 0 {
                assert(input[2] == shape.params[0]);
                assert(is_param_byte(shape.params[0]));
            }
        }
    }
    lemma_params_run(input, start, n);
    assert(input.subrange(start, start + n) =~= shape.params);
}

/// Every decimal numeral is a digit string that reads back as its number.
pub proof fn lemma_numerals()
    ensures
        forall|n: nat|
            #![trigger decimal(n)]
            decimal(n).len() > 0 && all_digits(decimal(n)) && is_numeral(decimal(n))
                && decimal_value(decimal(n)) == n && fields(decimal(n)) == seq![decimal(n)],
{
    assert forall|n: nat|
        #![trigger decimal(n)]
        decimal(n).len() > 0 && all_digits(decimal(n)) && is_numeral(decimal(n)) && decimal_value(
            decimal(n),
        ) == n && fields(decimal(n)) == seq![decimal(n)] by {
        lemma_decimal(n);
        lemma_fields_of_digits(decimal(n));
    }
}

/// The parameters seen through a window of the input end where they end in
/// the input, or at the end of the window.
proof fn lemma_params_window(input: Seq<u8>, a: int, b: int, k: int)
    requires
        0 <= a,
        0 <= k,
        a + k <= b <= input.len(),
    ensures
        params_end(input.subrange(a, b), k) == if params_end(input, a + k) <= b {
            params_end(input, a + k) - a
        } else {
            b - a
        },
    decreases b - a - k,
{
    let window = input.subrange(a, b);
    lemma_params_end(input, a + k);
    if a + k < b {
        assert(window[k] == input[a + k]);
        if is_param_byte(input[a + k]) {
            lemma_params_window(input, a, b, k + 1);
        }
    }
}

/// An escape is recognized through a window of the input, with the same
/// effects, exactly where it ends within the window.
pub proof fn lemma_escape_window(input: Seq<u8>, a: int, b: int)
    requires
        0 <= a < b <= input.len(),
    ensures
        match escape_at(input, a + 1) {
            Some(found) => if found.next <= b {
                escape_at(input.subrange(a, b), 1) == Some(
                    Recognized { effects: found.effects, next: found.next - a },
                )
            } else {
                escape_at(input.subrange(a, b), 1) is None
            },
            None => escape_at(input.subrange(a, b), 1) is None,
        },
{
    let window = input.subrange(a, b);
    lemma_escape_at(input, a + 1);
    if a + 1 < b {
        assert(window[1] == input[a + 1]);
        if input[a + 1] == BRACKET {
            if a + 2 < b {
                assert(window[2] == input[a + 2]);
                let intermediate = intermediate_at(input, a + 2);
                assert(intermediate_at(window, 2) == intermediate);
                let skip: int = if intermediate == Intermediate::Plain {
                    0
                } else {
                    1
                };
                lemma_params_end(input, a + 2 + skip);
                if a + 2 + skip <= b {
                    lemma_params_window(input, a, b, 2 + skip);
                    let end = params_end(input, a + 2 + skip);
                    if end < b {
                        assert(window[end - a] == input[end]);
                        assert(window.subrange(2 + skip, end - a) =~= input.subrange(
                            a + 2 + skip,
                            end,
                        ));
                    }
                } else {
                    lemma_params_end(window, 3);
                }
            } else {
                lemma_params_end(input, a + 2);
                lemma_params_end(input, a + 3);
                lemma_params_end(window, 2);
            }
        }
    }
}

/// What stands at `j` in the rest of the input from `k` on is parsed as what
/// stands at `k + j` in the input.
pub proof fn lemma_parse_shift(input: Seq<u8>, k: int, j: int)
    requires
        0 <= k,
        0 <= j,
        k + j <= input.len(),
    ensures
        parse_from(input.subrange(k, input.len() as int), j) == parse_from(input, k + j),
    decreases input.len() - k - j,
{
    let rest = input.subrange(k, input.len() as int);
    if k + j < input.len() {
        assert(rest[j] == input[k + j]);
        if input[k + j] != ESC {
            lemma_parse_shift(input, k, j + 1);
        } else {
            let window = input.subrange(k + j, input.len() as int);
            assert(rest.subrange(j, rest.len() as int) =~= window);
            lemma_escape_window(input, k + j, input.len() as int);
            lemma_escape_window(rest, j, rest.len() as int);
            lemma_escape_at(input, k + j + 1);
            lemma_escape_at(rest, j + 1);
            match escape_at(rest, j + 1) {
                Some(found) => {
                    lemma_parse_shift(input, k, found.next);
                },
                None => {},
            }
        }
    }
}

/// The rest of the input from `k` on, parsed by itself, gives what the
/// input gives from `k` on.
pub proof fn lemma_parse_suffix(input: Seq<u8>, k: int)
    requires
        0 <= k <= input.len(),
    ensures
        parse_all(input.subrange(k, input.len() as int)) == parse_from(input, k),
{
    lemma_parse_shift(input, k, 0);
}

/// The rendering of a first item and further items is the rendering of the
/// first followed by that of the others.
pub proof fn lemma_render_first(first: SequenceView, others: Seq<SequenceView>)
    ensures
        render(seq![first] + others) == first.encoding() + render(others),
    decreases others.len(),
{
    let all = seq![first] + others;
    if others.len() == 0 {
        assert(all.drop_last() =~= Seq::<SequenceView>::empty());
        assert(render(all.drop_last()) =~= Seq::<u8>::empty());
        assert(render(all) =~= first.encoding() + render(others));
    } else {
        assert(all.drop_last() =~= seq![first] + others.drop_last());
        lemma_render_first(first, others.drop_last());
        assert(render(all) =~= first.encoding() + render(others));
    }
}

} // verus!
