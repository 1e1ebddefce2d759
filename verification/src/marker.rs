//! The marker by which a script opts out of its wrapping transaction.

use vstd::prelude::*;
use vstd::string::*;
use vstd::std_specs::iter::IteratorSpec;

verus! {

/// The marker, in the case in which it is compared.
pub open spec fn marker() -> Seq<char> {
    "-- no-transaction"@
}

/// Whether `c` is white space: a character with the Unicode property
/// `White_Space`.
pub open spec fn is_space(c: char) -> bool {
    let n = c as u32;
    ||| 0x09 <= n <= 0x0d
    ||| n == 0x20
    ||| n == 0x85
    ||| n == 0xa0
    ||| n == 0x1680
    ||| 0x2000 <= n <= 0x200a
    ||| n == 0x2028
    ||| n == 0x2029
    ||| n == 0x202f
    ||| n == 0x205f
    ||| n == 0x3000
}

/// The code of `c`, with the letters `A` to `Z` taken as `a` to `z`.
pub open spec fn folded(c: char) -> u32 {
    let n = c as u32;
    if 0x41 <= n <= 0x5a {
        (n + 0x20) as u32
    } else {
        n
    }
}

/// `s` without its leading white space.
pub open spec fn trimmed(s: Seq<char>) -> Seq<char>
    decreases s.len(),
{
    if s.len() > 0 && is_space(s[0]) {
        trimmed(s.drop_first())
    } else {
        s
    }
}

/// Whether `s` begins with `prefix`, the case of letters set aside.
pub open spec fn begins_with(s: Seq<char>, prefix: Seq<char>) -> bool {
    &&& prefix.len() <= s.len()
    &&& forall|i: int| 0 <= i < prefix.len() ==> folded(#[trigger] s[i]) == folded(prefix[i])
}

/// Whether the script `sql` opts out of a transaction: after leading white
/// space it begins with the marker, in any case of letters.
pub open spec fn opts_out(sql: Seq<char>) -> bool {
    begins_with(trimmed(sql), marker())
}

/// Whether `c` is white space.
pub fn space(c: char) -> (r: bool)
    ensures
        r == is_space(c),
{
    let n: u32 = c as u32;
    (0x09 <= n && n <= 0x0d) || n == 0x20 || n == 0x85 || n == 0xa0 || n == 0x1680 || (0x2000 <= n
        && n <= 0x200a) || n == 0x2028 || n == 0x2029 || n == 0x202f || n == 0x205f || n == 0x3000
}

/// The code of `c`, with the letters `A` to `Z` taken as `a` to `z`.
pub fn fold(c: char) -> (r: u32)
    ensures
        r == folded(c),
{
    let n: u32 = c as u32;
    if 0x41 <= n && n <= 0x5a {
        n + 0x20
    } else {
        n
    }
}

/// Whether the script `sql` opts out of its wrapping transaction.
pub fn disables_transaction(sql: &str) -> (r: bool)
    ensures
        r == opts_out(sql@),
{
    broadcast use group_string_axioms;

    let wanted = "-- no-transaction";
    proof {
        reveal_strlit("-- no-transaction");
    }
    let mut it = sql.chars();
    let mut head: char = ' ';
    loop
        invariant_except_break
            it.obeys_prophetic_iter_laws(),
            it.decrease() is Some,
            marker().len() == 17,
            trimmed(sql@) == trimmed(it.remaining()),
        ensures
            it.obeys_prophetic_iter_laws(),
            it.decrease() is Some,
            trimmed(sql@) == seq![head] + it.remaining(),
        decreases it.decrease()->0,
    {
        let ghost before = it.remaining();
        match it.next() {
            Some(c) => {
                assert(before == seq![c] + it.remaining());
                if !space(c) {
                    head = c;
                    break ;
                }
            },
            None => {
                return false;
            },
        }
    }
    let ghost body = trimmed(sql@);
    let mut i: usize = 0;
    loop
        invariant
            it.obeys_prophetic_iter_laws(),
            it.decrease() is Some,
            wanted@ == marker(),
            wanted@.len() == 17,
            body == trimmed(sql@),
            i < 17,
            i < body.len(),
            body[i as int] == head,
            body.skip(i + 1) == it.remaining(),
            forall|k: int| 0 <= k < i ==> folded(#[trigger] body[k]) == folded(marker()[k]),
        decreases 17 - i,
    {
        if fold(head) != fold(wanted.get_char(i)) {
            return false;
        }
        i += 1;
        if i == 17 {
            return true;
        }
        let ghost before = it.remaining();
        match it.next() {
            Some(c) => {
                head = c;
                assert(before.skip(1) =~= body.skip(i + 1));
            },
            None => {
                return false;
            },
        }
    }
}

/// Whether every character of `s` is white space.
pub open spec fn all_space(s: Seq<char>) -> bool {
    forall|i: int| 0 <= i < s.len() ==> is_space(#[trigger] s[i])
}

/// Whether `a` and `b` are the same text, the case of letters set aside.
pub open spec fn same_but_for_case(a: Seq<char>, b: Seq<char>) -> bool {
    &&& a.len() == b.len()
    &&& forall|i: int| 0 <= i < a.len() ==> folded(#[trigger] a[i]) == folded(b[i])
}

/// Trimming drops exactly the leading white space.
proof fn lemma_trimmed(s: Seq<char>) -> (k: int)
    ensures
        0 <= k <= s.len(),
        all_space(s.take(k)),
        trimmed(s) == s.skip(k),
        k < s.len() ==> !is_space(s[k]),
    decreases s.len(),
{
    if s.len() > 0 && is_space(s[0]) {
        let rest = s.drop_first();
        let j = lemma_trimmed(rest);
        assert(rest.skip(j) =~= s.skip(j + 1));
        assert forall|i: int| 0 <= i < s.take(j + 1).len() implies is_space(
            #[trigger] s.take(j + 1)[i],
        ) by {
            if i > 0 {
                assert(s.take(j + 1)[i] == rest.take(j)[i - 1]);
            }
        }
        if j + 1 < s.len() {
            assert(s[j + 1] == rest[j]);
        }
        j + 1
    } else {
        assert(s.skip(0) =~= s);
        0
    }
}

/// White space in front of a script does not change whether it opts out.
pub proof fn law_marker_after_leading_space(space: Seq<char>, sql: Seq<char>)
    requires
        all_space(space),
    ensures
        opts_out(space + sql) == opts_out(sql),
    decreases space.len(),
{
    if space.len() > 0 {
        let all = space + sql;
        assert(all[0] == space[0]);
        assert(all.drop_first() =~= space.drop_first() + sql);
        assert forall|i: int| 0 <= i < space.drop_first().len() implies is_space(
            #[trigger] space.drop_first()[i],
        ) by {
            assert(space.drop_first()[i] == space[i + 1]);
        }
        law_marker_after_leading_space(space.drop_first(), sql);
    } else {
        assert(space + sql =~= sql);
    }
}

/// The case of letters does not change whether a script opts out.
pub proof fn law_marker_ignores_case(a: Seq<char>, b: Seq<char>)
    requires
        same_but_for_case(a, b),
    ensures
        opts_out(a) == opts_out(b),
    decreases a.len(),
{
    if a.len() > 0 {
        assert(folded(a[0]) == folded(b[0]));
        assert(is_space(a[0]) == is_space(b[0]));
        if is_space(a[0]) {
            assert forall|i: int| 0 <= i < a.drop_first().len() implies folded(
                #[trigger] a.drop_first()[i],
            ) == folded(b.drop_first()[i]) by {
                assert(a.drop_first()[i] == a[i + 1] && b.drop_first()[i] == b[i + 1]);
            }
            law_marker_ignores_case(a.drop_first(), b.drop_first());
        } else {
            lemma_begins_with_ignores_case(a, b, marker());
        }
    } else {
        lemma_begins_with_ignores_case(a, b, marker());
    }
}

/// The case of letters does not change whether a text begins with a prefix.
proof fn lemma_begins_with_ignores_case(a: Seq<char>, b: Seq<char>, prefix: Seq<char>)
    requires
        same_but_for_case(a, b),
    ensures
        begins_with(a, prefix) == begins_with(b, prefix),
{
    if begins_with(a, prefix) {
        assert forall|i: int| 0 <= i < prefix.len() implies folded(#[trigger] b[i]) == folded(
            prefix[i],
        ) by {
            assert(folded(a[i]) == folded(b[i]));
        }
    }
    if begins_with(b, prefix) {
        assert forall|i: int| 0 <= i < prefix.len() implies folded(#[trigger] a[i]) == folded(
            prefix[i],
        ) by {
            assert(folded(a[i]) == folded(b[i]));
        }
    }
}

/// A script opts out exactly when it is white space followed by text that
/// begins with the marker: white space is passed over in front of the marker
/// and nowhere else.
pub proof fn law_marker_only_after_leading_space(sql: Seq<char>)
    ensures
        opts_out(sql) <==> exists|k: int|
            0 <= k <= sql.len() && all_space(#[trigger] sql.take(k)) && begins_with(
                sql.skip(k),
                marker(),
            ),
{
    reveal_strlit("-- no-transaction");
    let at = lemma_trimmed(sql);
    if opts_out(sql) {
        assert(all_space(sql.take(at)) && begins_with(sql.skip(at), marker()));
    }
    if exists|k: int|
        0 <= k <= sql.len() && all_space(#[trigger] sql.take(k)) && begins_with(
            sql.skip(k),
            marker(),
        ) {
        let k = choose|k: int|
            0 <= k <= sql.len() && all_space(#[trigger] sql.take(k)) && begins_with(
                sql.skip(k),
                marker(),
            );
        assert(folded(sql.skip(k)[0]) == folded(marker()[0]));
        assert(!is_space(sql[k]));
        if at < k {
            assert(sql.take(k)[at] == sql[at]);
        }
        if k < at {
            assert(sql.take(at)[k] == sql[k]);
        }
        assert(at == k);
    }
}

} // verus!
