//! The role of a page line, decided by its leading token.

use vstd::prelude::*;

verus! {

/// What a line of a page is.
#[derive(Clone, Copy, PartialEq, Eq, Debug)]
pub enum Role {
    /// `# ` and the command's name.
    Title,
    /// `> ` and a line of description.
    Description,
    /// `- ` and the description of an example.
    Bullet,
    /// A command line between backticks.
    Example,
    /// Nothing but whitespace.
    Blank,
    /// Anything else.
    Invalid,
}

/// The characters that `char::is_whitespace` accepts (Unicode `White_Space`).
pub open spec fn is_space(c: char) -> bool {
    let u = c as u32;
    (0x09 <= u <= 0x0d) || u == 0x20 || u == 0x85 || u == 0xa0 || u == 0x1680
        || (0x2000 <= u <= 0x200a) || u == 0x2028 || u == 0x2029 || u == 0x202f
        || u == 0x205f || u == 0x3000
}

pub open spec fn starts_with2(s: Seq<char>, a: char, b: char) -> bool {
    s.len() >= 2 && s[0] == a && s[1] == b
}

/// The role of a line, by the first rule that applies, in this order.
pub open spec fn role_of(s: Seq<char>) -> Role {
    if starts_with2(s, '#', ' ') {
        Role::Title
    } else if starts_with2(s, '>', ' ') {
        Role::Description
    } else if starts_with2(s, '-', ' ') {
        Role::Bullet
    } else if s.len() >= 1 && s[0] == '`' {
        Role::Example
    } else if forall|i: int| 0 <= i < s.len() ==> is_space(#[trigger] s[i]) {
        Role::Blank
    } else {
        Role::Invalid
    }
}

pub fn is_space_char(c: char) -> (r: bool)
    ensures
        r == is_space(c),
{
    let u = c as u32;
    (0x09 <= u && u <= 0x0d) || u == 0x20 || u == 0x85 || u == 0xa0 || u == 0x1680
        || (0x2000 <= u && u <= 0x200a) || u == 0x2028 || u == 0x2029 || u == 0x202f
        || u == 0x205f || u == 0x3000
}

/// The role of the line `v`.
pub fn classify_chars(v: &Vec<char>) -> (r: Role)
    ensures
        r == role_of(v@),
{
    let n = v.len();
    if n >= 2 && v[0] == '#' && v[1] == ' ' {
        Role::Title
    } else if n >= 2 && v[0] == '>' && v[1] == ' ' {
        Role::Description
    } else if n >= 2 && v[0] == '-' && v[1] == ' ' {
        Role::Bullet
    } else if n >= 1 && v[0] == '`' {
        Role::Example
    } else {
        let mut k: usize = 0;
        while k < n
            invariant
                k <= n == v.len(),
                !starts_with2(v@, '#', ' '),
                !starts_with2(v@, '>', ' '),
                !starts_with2(v@, '-', ' '),
                !(v@.len() >= 1 && v@[0] == '`'),
                forall|i: int| 0 <= i < k ==> is_space(#[trigger] v@[i]),
            decreases n - k,
        {
            if !is_space_char(v[k]) {
                assert(!is_space(v@[k as int]));
                return Role::Invalid;
            }
            k = k + 1;
        }
        Role::Blank
    }
}

/// The role of the line `line`.
pub fn classify(line: &str) -> (r: Role)
    ensures
        r == role_of(line@),
{
    let v = crate::text::chars_of(line);
    classify_chars(&v)
}

} // verus!
