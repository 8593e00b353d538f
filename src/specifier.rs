//! Classification of import specifiers.
use vstd::prelude::*;

verus! {

/// Whether `c` is a quote character, which classification ignores.
pub open spec fn is_quote(c: char) -> bool {
    c == '\'' || c == '"'
}

/// Whether `c` can begin a package name: `@` or an ASCII letter.
pub open spec fn is_package_initial(c: char) -> bool {
    c == '@' || ('a' <= c && c <= 'z') || ('A' <= c && c <= 'Z')
}

/// The characters of `s` with every quote character removed.
pub open spec fn unquoted(s: Seq<char>) -> Seq<char>
    decreases s.len(),
{
    if s.len() == 0 {
        s
    } else if is_quote(s[0]) {
        unquoted(s.drop_first())
    } else {
        seq![s[0]] + unquoted(s.drop_first())
    }
}

/// A bare specifier names a package: once quotes are removed, it starts with
/// `@` or a letter.
pub open spec fn bare_spec(s: Seq<char>) -> bool {
    unquoted(s).len() > 0 && is_package_initial(unquoted(s)[0])
}

/// A scoped package name starts with `@`.
pub open spec fn scoped_spec(s: Seq<char>) -> bool {
    s.len() > 0 && s[0] == '@'
}

/// An interpolation `${` begins at `i`, and the character after it is not `}`.
pub open spec fn opens_at(s: Seq<char>, i: int) -> bool {
    0 <= i && i + 2 < s.len() && s[i] == '$' && s[i + 1] == '{' && s[i + 2] != '}'
}

/// `s` holds an interpolation `${...}` with at least one character between
/// the braces and no `}` among them.
pub open spec fn templated_spec(s: Seq<char>) -> bool {
    exists|i: int, k: int|
        #![trigger opens_at(s, i), s[k]]
        opens_at(s, i) && i + 2 < k && k < s.len() && s[k] == '}'
}

proof fn lemma_unquoted_skip(s: Seq<char>, i: int)
    requires
        0 <= i <= s.len(),
        forall|j: int| 0 <= j < i ==> is_quote(s[j]),
    ensures
        unquoted(s) == unquoted(s.subrange(i, s.len() as int)),
    decreases i,
{
    if i == 0 {
        assert(s.subrange(0, s.len() as int) =~= s);
    } else {
        assert(s.drop_first().subrange(i - 1, s.drop_first().len() as int) =~= s.subrange(
            i,
            s.len() as int,
        ));
        lemma_unquoted_skip(s.drop_first(), i - 1);
    }
}

/// Whether `specifier` names a package rather than a relative or absolute path.
pub fn is_bare_module_specifier(specifier: &str) -> (r: bool)
    ensures
        r == bare_spec(specifier@),
{
    let n = specifier.unicode_len();
    let mut i: usize = 0;
    while i < n
        invariant
            n == specifier@.len(),
            0 <= i <= n,
            forall|j: int| 0 <= j < i ==> is_quote(#[trigger] specifier@[j]),
        decreases n - i,
    {
        let c = specifier.get_char(i);
        if c != '\'' && c != '"' {
            proof {
                let s = specifier@;
                lemma_unquoted_skip(s, i as int);
                let t = s.subrange(i as int, s.len() as int);
                assert(t[0] == c);
                assert(unquoted(t) == seq![c] + unquoted(t.drop_first()));
            }
            return c == '@' || ('a' <= c && c <= 'z') || ('A' <= c && c <= 'Z');
        }
        i = i + 1;
    }
    proof {
        let s = specifier@;
        lemma_unquoted_skip(s, i as int);
        assert(s.subrange(i as int, s.len() as int).len() == 0);
    }
    false
}

/// Whether `specifier` names a scoped package (`@scope/name`).
pub fn is_scoped_package(specifier: &str) -> (r: bool)
    ensures
        r == scoped_spec(specifier@),
{
    specifier.unicode_len() > 0 && specifier.get_char(0) == '@'
}

/// Whether `specifier` holds a template interpolation such as `${name}`,
/// which static analysis cannot turn into a single path.
pub fn is_templated_dynamic(specifier: &str) -> (r: bool)
    ensures
        r == templated_spec(specifier@),
{
    let n = specifier.unicode_len();
    let ghost s = specifier@;
    let mut opened = false;
    let mut k: usize = 0;
    while k < n
        invariant
            n == s.len(),
            s == specifier@,
            0 <= k <= n,
            opened == exists|i: int| #![trigger opens_at(s, i)] opens_at(s, i) && i + 3 <= k,
            forall|i: int, j: int|
                #![trigger opens_at(s, i), s[j]]
                opens_at(s, i) && i + 2 < j && j < k ==> s[j] != '}',
        decreases n - k,
    {
        let c = specifier.get_char(k);
        if opened && c == '}' {
            assert(templated_spec(s)) by {
                let i = choose|i: int| #![trigger opens_at(s, i)] opens_at(s, i) && i + 3 <= k;
                assert(opens_at(s, i) && s[k as int] == '}');
            }
            return true;
        }
        if k >= 2 {
            let i = k - 2;
            if specifier.get_char(i) == '$' && specifier.get_char(i + 1) == '{' && c != '}' {
                assert(opens_at(s, i as int));
                opened = true;
            } else {
                assert(!opens_at(s, i as int));
            }
        }
        k = k + 1;
    }
    proof {
        if templated_spec(s) {
            let (i, j) = choose|i: int, j: int|
                #![trigger opens_at(s, i), s[j]]
                opens_at(s, i) && i + 2 < j && j < s.len() && s[j] == '}';
            assert(s[j] != '}');
        }
    }
    false
}

/// Whether `s` starts with `node:`.
pub open spec fn has_node_prefix(s: Seq<char>) -> bool {
    s.len() >= 5 && s[0] == 'n' && s[1] == 'o' && s[2] == 'd' && s[3] == 'e' && s[4] == ':'
}

/// `s` without a leading `node:`.
pub open spec fn without_node(s: Seq<char>) -> Seq<char> {
    if has_node_prefix(s) {
        s.subrange(5, s.len() as int)
    } else {
        s
    }
}

/// The names in a list of strings.
pub open spec fn names(v: Seq<String>) -> Seq<Seq<char>> {
    v.map_values(|b: String| b@)
}

/// A specifier that the traversal drops before any plugin or resolution
/// sees it: empty, `import.meta`, a built-in module (with or without
/// `node:`), a bare specifier while externals are ignored, or a template.
pub open spec fn skipped_spec(s: Seq<char>, builtins: Seq<Seq<char>>, ignore_external: bool) -> bool {
    s.len() == 0 || s == "import.meta"@ || builtins.contains(without_node(s)) || (ignore_external
        && bare_spec(s)) || templated_spec(s)
}

/// The specifier with a leading `node:` removed.
pub fn strip_node_prefix(specifier: &str) -> (r: String)
    ensures
        r@ == without_node(specifier@),
{
    let n = specifier.unicode_len();
    if n >= 5 && specifier.get_char(0) == 'n' && specifier.get_char(1) == 'o'
        && specifier.get_char(2) == 'd' && specifier.get_char(3) == 'e'
        && specifier.get_char(4) == ':' {
        String::from_str(specifier.substring_char(5, n))
    } else {
        String::from_str(specifier)
    }
}

/// Whether `name` is among `builtins`.
pub fn contains_name(builtins: &Vec<String>, name: &String) -> (r: bool)
    ensures
        r == names(builtins@).contains(name@),
{
    let mut j: usize = 0;
    while j < builtins.len()
        invariant
            0 <= j <= builtins.len(),
            forall|k: int| 0 <= k < j ==> builtins@[k]@ != name@,
        decreases builtins.len() - j,
    {
        if builtins[j] == *name {
            assert(names(builtins@)[j as int] == name@);
            return true;
        }
        j = j + 1;
    }
    proof {
        if names(builtins@).contains(name@) {
            let k = choose|k: int| 0 <= k < names(builtins@).len() && names(builtins@)[k] == name@;
            assert(builtins@[k]@ == name@);
        }
    }
    false
}

/// Whether the traversal drops `specifier` with no edge and no module.
pub fn is_skipped(specifier: &str, builtins: &Vec<String>, ignore_external: bool) -> (r: bool)
    ensures
        r == skipped_spec(specifier@, names(builtins@), ignore_external),
{
    let meta = String::from_str("import.meta");
    let own = String::from_str(specifier);
    proof {
        reveal_strlit("import.meta");
    }
    if specifier.unicode_len() == 0 || own == meta {
        return true;
    }
    let stripped = strip_node_prefix(specifier);
    if contains_name(builtins, &stripped) {
        return true;
    }
    if ignore_external && is_bare_module_specifier(specifier) {
        return true;
    }
    is_templated_dynamic(specifier)
}

} // verus!
