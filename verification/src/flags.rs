//! The compiler flags handed to the build tool through its environment.
//!
//! Flags travel as one string in which a control character parts the
//! fields, so that a flag may hold spaces. Flags that the environment
//! already holds are kept, field by field, and a flag that caps lints is
//! added behind them: mutated code often trips lints, and those must not
//! fail the build.

use vstd::prelude::*;
use vstd::string::StringExecFns;
use crate::environment::Environment;

verus! {

/// The character that parts the fields of encoded flags.
pub const FLAG_DELIMITER: char = '\u{1f}';

/// The flag that is added behind all others.
pub open spec fn cap_lints_flag() -> Seq<char> {
    "--cap-lints=allow"@
}

/// The fields of `s` between occurrences of `sep`. There is always at least
/// one field; a separator at either end, or two in a row, bound an empty one.
pub open spec fn split_on(s: Seq<char>, sep: char) -> Seq<Seq<char>>
    decreases s.len(),
{
    if s.len() == 0 {
        seq![Seq::<char>::empty()]
    } else {
        let before = split_on(s.drop_last(), sep);
        if s.last() == sep {
            before.push(Seq::<char>::empty())
        } else {
            before.drop_last().push(before.last().push(s.last()))
        }
    }
}

/// The fields in order, with `sep` between each two neighbours.
pub open spec fn join_with(fields: Seq<Seq<char>>, sep: char) -> Seq<char>
    decreases fields.len(),
{
    if fields.len() == 0 {
        Seq::<char>::empty()
    } else if fields.len() == 1 {
        fields[0]
    } else {
        join_with(fields.drop_last(), sep).push(sep) + fields.last()
    }
}

/// No field holds the character `sep`.
pub open spec fn fields_free_of(fields: Seq<Seq<char>>, sep: char) -> bool {
    forall|i: int, j: int|
        0 <= i < fields.len() && 0 <= j < fields[i].len() ==> fields[i][j] != sep
}

/// The flags that the environment already holds: the fields of the encoded
/// variable where it is set, else the words of the plain one, else none.
pub open spec fn inherited_flags(env: Environment) -> Seq<Seq<char>> {
    match env.cargo_encoded_rustflags {
        Some(encoded) => split_on(encoded@, FLAG_DELIMITER),
        None => match env.rustflags {
            Some(plain) => split_on(plain@, ' '),
            None => Seq::<Seq<char>>::empty(),
        },
    }
}

/// The flags for the child, one per field: the inherited ones, then the cap
/// on lints.
pub open spec fn resolved_flags(env: Environment) -> Seq<Seq<char>> {
    inherited_flags(env).push(cap_lints_flag())
}

/// The resolved flags as the one string that goes into the child's
/// environment.
pub open spec fn encoded_rustflags(env: Environment) -> Seq<char> {
    join_with(resolved_flags(env), FLAG_DELIMITER)
}

/// Splitting gives at least one field, and no field holds the separator.
pub proof fn lemma_split_fields(s: Seq<char>, sep: char)
    ensures
        split_on(s, sep).len() >= 1,
        fields_free_of(split_on(s, sep), sep),
    decreases s.len(),
{
    if s.len() > 0 {
        lemma_split_fields(s.drop_last(), sep);
    }
}

/// Joining what a split gave restores the text.
pub proof fn lemma_join_of_split(s: Seq<char>, sep: char)
    ensures
        join_with(split_on(s, sep), sep) == s,
{
    lemma_join_of_split_replaces(s, sep, sep);
    assert(replace_char(s, sep, sep) =~= s);
}

/// The text with every `from` turned into `to`.
pub open spec fn replace_char(s: Seq<char>, from: char, to: char) -> Seq<char> {
    Seq::new(s.len(), |i: int| if s[i] == from { to } else { s[i] })
}

/// Splitting at one character and joining with another turns every
/// occurrence of the first into the second, and nothing else.
pub proof fn lemma_join_of_split_replaces(s: Seq<char>, from: char, to: char)
    ensures
        join_with(split_on(s, from), to) == replace_char(s, from, to),
    decreases s.len(),
{
    if s.len() == 0 {
        assert(replace_char(s, from, to) =~= Seq::<char>::empty());
    } else {
        let shorter = s.drop_last();
        let before = split_on(shorter, from);
        lemma_split_fields(shorter, from);
        lemma_join_of_split_replaces(shorter, from, to);
        if s.last() == from {
            let fields = before.push(Seq::<char>::empty());
            assert(fields.drop_last() == before);
            assert(join_with(fields, to) == replace_char(shorter, from, to).push(to));
        } else {
            let grown = before.last().push(s.last());
            let fields = before.drop_last().push(grown);
            assert(fields.drop_last() == before.drop_last());
            if before.len() == 1 {
                assert(join_with(fields, to) == grown);
                assert(join_with(before, to) == before.last());
            } else {
                assert(join_with(fields, to) == join_with(before.drop_last(), to).push(to)
                    + grown);
                assert(join_with(before, to) == join_with(before.drop_last(), to).push(to)
                    + before.last());
            }
            assert(join_with(fields, to) == join_with(before, to).push(s.last()));
        }
        assert(replace_char(s, from, to) =~= replace_char(shorter, from, to).push(
            if s.last() == from {
                to
            } else {
                s.last()
            },
        ));
    }
}

/// A text that ends in a field without the separator splits into the
/// fields of what stands before that field's separator, and the field.
pub proof fn lemma_split_last_field(head: Seq<char>, field: Seq<char>, sep: char)
    requires
        forall|j: int| 0 <= j < field.len() ==> field[j] != sep,
    ensures
        split_on(head.push(sep) + field, sep) == split_on(head, sep).push(field),
    decreases field.len(),
{
    let text = head.push(sep) + field;
    if field.len() == 0 {
        assert(text.drop_last() =~= head);
        assert(field =~= Seq::<char>::empty());
    } else {
        let shorter = field.drop_last();
        lemma_split_last_field(head, shorter, sep);
        let before = split_on(head, sep).push(shorter);
        assert(text.drop_last() =~= head.push(sep) + shorter);
        assert(text.last() == field.last());
        assert(before.drop_last() =~= split_on(head, sep));
        assert(shorter.push(field.last()) =~= field);
    }
}

/// Splitting what a join gave restores the fields, where there is at least
/// one field and none holds the separator.
pub proof fn lemma_split_of_join(fields: Seq<Seq<char>>, sep: char)
    requires
        fields.len() >= 1,
        fields_free_of(fields, sep),
    ensures
        split_on(join_with(fields, sep), sep) == fields,
    decreases fields.len(),
{
    if fields.len() == 1 {
        lemma_split_single_field(fields[0], sep);
        assert(fields == seq![fields[0]]);
    } else {
        let front = fields.drop_last();
        assert(fields_free_of(front, sep)) by {
            assert forall|i: int, j: int|
                0 <= i < front.len() && 0 <= j < front[i].len() implies front[i][j] != sep by {
                assert(front[i] == fields[i]);
            }
        }
        lemma_split_of_join(front, sep);
        lemma_split_last_field(join_with(front, sep), fields.last(), sep);
        assert(front.push(fields.last()) == fields);
    }
}

/// A text without the separator is its own single field.
pub proof fn lemma_split_single_field(field: Seq<char>, sep: char)
    requires
        forall|j: int| 0 <= j < field.len() ==> field[j] != sep,
    ensures
        split_on(field, sep) == seq![field],
    decreases field.len(),
{
    if field.len() > 0 {
        let shorter = field.drop_last();
        lemma_split_single_field(shorter, sep);
        assert(shorter.push(field.last()) =~= field);
        assert(seq![shorter].drop_last().push(field) =~= seq![field]);
    } else {
        assert(field =~= Seq::<char>::empty());
    }
}

/// Where the encoded variable is set its whole text is kept, and the cap on
/// lints follows it as one more field.
pub proof fn lemma_encoded_flags_are_kept(env: Environment)
    requires
        env.cargo_encoded_rustflags is Some,
    ensures
        encoded_rustflags(env) == env.cargo_encoded_rustflags->0@.push(FLAG_DELIMITER)
            + cap_lints_flag(),
{
    let encoded = env.cargo_encoded_rustflags->0@;
    let fields = split_on(encoded, FLAG_DELIMITER);
    lemma_split_fields(encoded, FLAG_DELIMITER);
    lemma_join_of_split(encoded, FLAG_DELIMITER);
    assert(fields.push(cap_lints_flag()).drop_last() =~= fields);
}

/// Where only the plain variable is set, the result is its text with every
/// space turned into the delimiter, and the cap on lints as one more field.
pub proof fn lemma_plain_spaces_become_delimiters(env: Environment)
    requires
        env.cargo_encoded_rustflags is None,
        env.rustflags is Some,
    ensures
        encoded_rustflags(env) == replace_char(env.rustflags->0@, ' ', FLAG_DELIMITER).push(
            FLAG_DELIMITER,
        ) + cap_lints_flag(),
{
    let plain = env.rustflags->0@;
    let words = split_on(plain, ' ');
    lemma_split_fields(plain, ' ');
    lemma_join_of_split_replaces(plain, ' ', FLAG_DELIMITER);
    assert(words.push(cap_lints_flag()).drop_last() =~= words);
}

/// The cap on lints holds no delimiter.
pub proof fn lemma_cap_lints_is_one_field()
    ensures
        forall|j: int| 0 <= j < cap_lints_flag().len() ==> cap_lints_flag()[j] != FLAG_DELIMITER,
{
    reveal_strlit("--cap-lints=allow");
}

/// Whatever the environment holds, taking the result apart at the delimiter
/// gives the cap on lints as the last field.
pub proof fn lemma_cap_lints_comes_last(env: Environment)
    ensures
        split_on(encoded_rustflags(env), FLAG_DELIMITER).len() >= 1,
        split_on(encoded_rustflags(env), FLAG_DELIMITER).last() == cap_lints_flag(),
{
    let inherited = inherited_flags(env);
    let fields = inherited.push(cap_lints_flag());
    lemma_cap_lints_is_one_field();
    assert(fields.drop_last() =~= inherited);
    if inherited.len() == 0 {
        lemma_split_single_field(cap_lints_flag(), FLAG_DELIMITER);
    } else {
        lemma_split_last_field(join_with(inherited, FLAG_DELIMITER), cap_lints_flag(),
            FLAG_DELIMITER);
    }
}

/// In the result the delimiter only ever parts fields: taken apart at the
/// delimiter, the result gives fields that hold none, and they join to the
/// result again.
pub proof fn lemma_delimiter_only_parts_fields(env: Environment)
    ensures
        fields_free_of(split_on(encoded_rustflags(env), FLAG_DELIMITER), FLAG_DELIMITER),
        join_with(split_on(encoded_rustflags(env), FLAG_DELIMITER), FLAG_DELIMITER)
            == encoded_rustflags(env),
{
    lemma_split_fields(encoded_rustflags(env), FLAG_DELIMITER);
    lemma_join_of_split(encoded_rustflags(env), FLAG_DELIMITER);
}

/// Where the encoded variable is set, taking the result apart at the
/// delimiter gives the fields of the variable, in their order, and then the
/// cap on lints.
pub proof fn lemma_encoded_fields_round_trip(env: Environment)
    requires
        env.cargo_encoded_rustflags is Some,
    ensures
        split_on(encoded_rustflags(env), FLAG_DELIMITER) == split_on(
            env.cargo_encoded_rustflags->0@,
            FLAG_DELIMITER,
        ).push(cap_lints_flag()),
{
    let encoded = env.cargo_encoded_rustflags->0@;
    lemma_encoded_flags_are_kept(env);
    lemma_cap_lints_is_one_field();
    lemma_split_last_field(encoded, cap_lints_flag(), FLAG_DELIMITER);
}

/// Where only the plain variable is set, and it holds no delimiter, taking
/// the result apart at the delimiter gives the words of the variable, in
/// their order, and then the cap on lints.
pub proof fn lemma_plain_words_round_trip(env: Environment)
    requires
        env.cargo_encoded_rustflags is None,
        env.rustflags is Some,
        forall|j: int|
            0 <= j < env.rustflags->0@.len() ==> env.rustflags->0@[j] != FLAG_DELIMITER,
    ensures
        split_on(encoded_rustflags(env), FLAG_DELIMITER) == split_on(env.rustflags->0@, ' ').push(
            cap_lints_flag(),
        ),
{
    let plain = env.rustflags->0@;
    let words = split_on(plain, ' ');
    lemma_split_fields(plain, ' ');
    lemma_join_of_split(plain, ' ');
    lemma_words_are_within(plain, ' ');
    lemma_cap_lints_is_one_field();
    let fields = words.push(cap_lints_flag());
    assert(fields_free_of(fields, FLAG_DELIMITER)) by {
        assert forall|i: int, j: int|
            0 <= i < fields.len() && 0 <= j < fields[i].len() implies fields[i][j]
            != FLAG_DELIMITER by {
            if i < words.len() {
                assert(fields[i] == words[i]);
                assert(words[i].contains(words[i][j]));
            }
        }
    }
    lemma_split_of_join(fields, FLAG_DELIMITER);
}

/// Every character of every field of a split is a character of the text.
pub proof fn lemma_words_are_within(s: Seq<char>, sep: char)
    ensures
        forall|i: int, c: char|
            0 <= i < split_on(s, sep).len() && #[trigger] split_on(s, sep)[i].contains(c)
                ==> s.contains(c),
    decreases s.len(),
{
    if s.len() > 0 {
        let shorter = s.drop_last();
        let before = split_on(shorter, sep);
        lemma_words_are_within(shorter, sep);
        lemma_split_fields(shorter, sep);
        assert forall|i: int, c: char|
            0 <= i < split_on(s, sep).len() && #[trigger] split_on(s, sep)[i].contains(
                c,
            ) implies s.contains(c) by {
            let field = split_on(s, sep)[i];
            let k = choose|k: int| 0 <= k < field.len() && field[k] == c;
            if s.last() != sep && i == before.len() - 1 && k == field.len() - 1 {
                assert(s[s.len() - 1] == c);
            } else {
                if s.last() != sep && i == before.len() - 1 {
                    assert(before[i][k] == c);
                }
                assert(before[i].contains(c));
                let m = choose|m: int| 0 <= m < shorter.len() && shorter[m] == c;
                assert(s[m] == c);
            }
        }
    }
}

/// The fields of `s` between occurrences of `sep`.
pub fn split_fields(s: &str, sep: char) -> (fields: Vec<String>)
    ensures
        fields.deep_view() == split_on(s@, sep),
{
    let mut fields: Vec<String> = Vec::new();
    let mut current = String::new();
    for c in it: s.chars()
        invariant
            it.seq() == s@,
            fields.deep_view().push(current@) == split_on(s@.take(it.index()), sep),
    {
        let ghost done = fields.deep_view();
        let ghost field = current@;
        proof {
            assert(s@.take(it.index() + 1).drop_last() =~= s@.take(it.index()));
            assert(done.push(field).drop_last() =~= done);
        }
        if c == sep {
            fields.push(current);
            current = String::new();
            assert(fields.deep_view() =~= done.push(field));
        } else {
            current.push(c);
            assert(fields.deep_view() =~= done);
        }
    }
    let ghost done = fields.deep_view();
    fields.push(current);
    proof {
        assert(s@.take(s@.len() as int) =~= s@);
        assert(fields.deep_view() =~= done.push(current@));
    }
    fields
}

/// The fields in order, with `sep` between each two neighbours.
pub fn join_fields(fields: &Vec<String>, sep: char) -> (joined: String)
    ensures
        joined@ == join_with(fields.deep_view(), sep),
{
    let mut joined = String::new();
    let mut i: usize = 0;
    while i < fields.len()
        invariant
            i <= fields.len(),
            joined@ == join_with(fields.deep_view().take(i as int), sep),
        decreases fields.len() - i,
    {
        let ghost front = fields.deep_view().take(i as int);
        let ghost next = fields.deep_view().take(i + 1);
        proof {
            assert(next.drop_last() =~= front);
            assert(next.last() == fields[i as int]@);
        }
        if i > 0 {
            joined.push(sep);
        }
        joined.append(fields[i].as_str());
        proof {
            if i == 0 {
                assert(joined@ =~= next[0]);
            }
        }
        i += 1;
    }
    proof {
        assert(fields.deep_view().take(fields.len() as int) =~= fields.deep_view());
    }
    joined
}

/// The compiler flags for the child's environment, encoded: the flags that
/// `env` already holds, then the cap on lints, joined by the delimiter.
///
/// The encoded variable wins over the plain one, which is read only where
/// the encoded one is not set. No configuration file is read.
pub fn rustflags(env: &Environment) -> (flags: String)
    ensures
        flags@ == encoded_rustflags(*env),
{
    let mut fields: Vec<String> = match &env.cargo_encoded_rustflags {
        Some(encoded) => split_fields(encoded.as_str(), FLAG_DELIMITER),
        None => match &env.rustflags {
            Some(plain) => split_fields(plain.as_str(), ' '),
            None => Vec::new(),
        },
    };
    let ghost inherited = fields.deep_view();
    proof {
        assert(inherited =~= inherited_flags(*env));
    }
    fields.push("--cap-lints=allow".to_owned());
    proof {
        assert(fields.deep_view() =~= inherited.push(cap_lints_flag()));
    }
    join_fields(&fields, FLAG_DELIMITER)
}

} // verus!
