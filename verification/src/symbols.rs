//! Declarations named at the start of a source line, found with the regular
//! expressions of the `regex` crate: `struct`, `enum`, `trait`, `fn`,
//! `function` and `class`, each with its optional `pub`, `export` and `async`
//! words.
use vstd::prelude::*;

use crate::pattern::{compile_regex, regex_capture1, regex_error, regex_group1, CompiledRegex};
use crate::text::{lines, lines_of, views};

verus! {

/// The patterns tried on each line, in order; group 1 is the declared name.
pub open spec fn symbol_patterns() -> Seq<Seq<char>> {
    seq![
        "^\\s*pub\\s+struct\\s+([A-Za-z_][A-Za-z0-9_]*)"@,
        "^\\s*struct\\s+([A-Za-z_][A-Za-z0-9_]*)"@,
        "^\\s*pub\\s+enum\\s+([A-Za-z_][A-Za-z0-9_]*)"@,
        "^\\s*enum\\s+([A-Za-z_][A-Za-z0-9_]*)"@,
        "^\\s*pub\\s+trait\\s+([A-Za-z_][A-Za-z0-9_]*)"@,
        "^\\s*trait\\s+([A-Za-z_][A-Za-z0-9_]*)"@,
        "^\\s*(?:pub\\s+)?fn\\s+([A-Za-z_][A-Za-z0-9_]*)"@,
        "^\\s*(?:export\\s+)?(?:async\\s+)?function\\s+([A-Za-z_][A-Za-z0-9_]*)"@,
        "^\\s*(?:export\\s+)?class\\s+([A-Za-z_][A-Za-z0-9_]*)"@,
    ]
}

fn pattern_texts() -> (r: Vec<&'static str>)
    ensures
        r@.map_values(|s: &str| s@) == symbol_patterns(),
{
    let mut r: Vec<&'static str> = Vec::new();
    r.push("^\\s*pub\\s+struct\\s+([A-Za-z_][A-Za-z0-9_]*)");
    r.push("^\\s*struct\\s+([A-Za-z_][A-Za-z0-9_]*)");
    r.push("^\\s*pub\\s+enum\\s+([A-Za-z_][A-Za-z0-9_]*)");
    r.push("^\\s*enum\\s+([A-Za-z_][A-Za-z0-9_]*)");
    r.push("^\\s*pub\\s+trait\\s+([A-Za-z_][A-Za-z0-9_]*)");
    r.push("^\\s*trait\\s+([A-Za-z_][A-Za-z0-9_]*)");
    r.push("^\\s*(?:pub\\s+)?fn\\s+([A-Za-z_][A-Za-z0-9_]*)");
    r.push("^\\s*(?:export\\s+)?(?:async\\s+)?function\\s+([A-Za-z_][A-Za-z0-9_]*)");
    r.push("^\\s*(?:export\\s+)?class\\s+([A-Za-z_][A-Za-z0-9_]*)");
    assert(r@.map_values(|s: &str| s@) =~= symbol_patterns());
    r
}

/// The name a line declares: group 1 of the first pattern, in order, that
/// matches it.
pub open spec fn first_capture(ps: Seq<Seq<char>>, line: Seq<char>) -> Option<Seq<char>>
    decreases ps.len(),
{
    if ps.len() == 0 {
        None
    } else {
        match regex_group1(ps[0], line) {
            Some(name) => Some(name),
            None => first_capture(ps.drop_first(), line),
        }
    }
}

/// The names declared by `ls`, after `acc`, stopping after the line at
/// which `max` names have been found.
pub open spec fn symbols_from(ls: Seq<Seq<char>>, max: nat, acc: Seq<Seq<char>>) -> Seq<Seq<char>>
    decreases ls.len(),
{
    if ls.len() == 0 {
        acc
    } else {
        let next = match first_capture(symbol_patterns(), ls[0]) {
            Some(x) => acc.push(x),
            None => acc,
        };
        if next.len() >= max {
            next
        } else {
            symbols_from(ls.drop_first(), max, next)
        }
    }
}

/// The names declared in a text, line by line, until at least `max` are found.
pub open spec fn extract(content: Seq<char>, max: nat) -> Seq<Seq<char>> {
    symbols_from(lines(content), max, seq![])
}

/// The first pattern, in order, that does not compile, with its error.
pub open spec fn first_bad_pattern(ps: Seq<Seq<char>>) -> Option<Seq<char>>
    decreases ps.len(),
{
    if ps.len() == 0 {
        None
    } else {
        match regex_error(ps[0]) {
            Some(e) => Some(e),
            None => first_bad_pattern(ps.drop_first()),
        }
    }
}

/// The symbol patterns, compiled in order.
pub struct SymbolPatterns {
    regexes: Vec<CompiledRegex>,
}

impl SymbolPatterns {
    /// Each pattern compiled from its text, in order.
    pub closed spec fn wf(&self) -> bool {
        &&& self.regexes@.len() == symbol_patterns().len()
        &&& forall|i: int| 0 <= i < self.regexes@.len() ==> (#[trigger] self.regexes@[i]).source() == symbol_patterns()[i]
    }

    /// The patterns compiled; the error of the first that does not compile.
    pub fn compile() -> (r: Result<SymbolPatterns, String>)
        ensures
            match r {
                Ok(p) => p.wf() && first_bad_pattern(symbol_patterns()) is None,
                Err(e) => first_bad_pattern(symbol_patterns()) == Some(e@),
            },
    {
        let texts = pattern_texts();
        let ghost ps = symbol_patterns();
        let mut regexes: Vec<CompiledRegex> = Vec::new();
        let mut i: usize = 0;
        assert(ps.skip(0) =~= ps);
        while i < texts.len()
            invariant
                i <= texts@.len(),
                texts@.map_values(|s: &str| s@) == ps,
                ps == symbol_patterns(),
                regexes@.len() == i,
                forall|k: int| 0 <= k < i ==> (#[trigger] regexes@[k]).source() == ps[k],
                first_bad_pattern(ps) == first_bad_pattern(ps.skip(i as int)),
            decreases texts.len() - i,
        {
            assert(ps.skip(i as int).drop_first() =~= ps.skip(i + 1));
            assert(ps.skip(i as int)[0] == texts@[i as int]@);
            match compile_regex(texts[i]) {
                Ok(c) => regexes.push(c),
                Err(e) => return Err(e),
            }
            i += 1;
        }
        assert(ps.skip(i as int) =~= Seq::<Seq<char>>::empty());
        Ok(SymbolPatterns { regexes })
    }

    /// The name a line declares (`first_capture` of the patterns).
    pub fn line_symbol(&self, line: &str) -> (r: Option<String>)
        requires
            self.wf(),
        ensures
            match r {
                Some(x) => first_capture(symbol_patterns(), line@) == Some(x@),
                None => first_capture(symbol_patterns(), line@) is None,
            },
    {
        let ghost ps = symbol_patterns();
        let mut i: usize = 0;
        assert(ps.skip(0) =~= ps);
        while i < self.regexes.len()
            invariant
                self.wf(),
                ps == symbol_patterns(),
                i <= self.regexes@.len(),
                first_capture(ps, line@) == first_capture(ps.skip(i as int), line@),
            decreases self.regexes.len() - i,
        {
            assert(ps.skip(i as int).drop_first() =~= ps.skip(i + 1));
            assert(ps.skip(i as int)[0] == self.regexes@[i as int].source());
            match regex_capture1(&self.regexes[i], line) {
                Some(name) => return Some(name),
                None => {},
            }
            i += 1;
        }
        assert(ps.skip(i as int) =~= Seq::<Seq<char>>::empty());
        None
    }

    /// The names declared in a text, line by line, until at least
    /// `max_symbols` are found.
    pub fn extract(&self, content: &str, max_symbols: usize) -> (r: Vec<String>)
        requires
            self.wf(),
        ensures
            views(r@) == extract(content@, max_symbols as nat),
    {
        let ls = lines_of(content);
        let mut symbols: Vec<String> = Vec::new();
        let mut i: usize = 0;
        assert(views(ls@).skip(0) =~= views(ls@));
        assert(views(symbols@) =~= Seq::<Seq<char>>::empty());
        while i < ls.len()
            invariant
                self.wf(),
                i <= ls@.len(),
                views(ls@) == lines(content@),
                symbols_from(views(ls@), max_symbols as nat, seq![]) == symbols_from(
                    views(ls@).skip(i as int),
                    max_symbols as nat,
                    views(symbols@),
                ),
            decreases ls.len() - i,
        {
            let ghost rest = views(ls@).skip(i as int);
            assert(rest[0] == ls@[i as int]@);
            assert(rest.drop_first() =~= views(ls@).skip(i + 1));
            let ghost before = symbols@;
            match self.line_symbol(ls[i].as_str()) {
                Some(x) => {
                    let ghost xv = x@;
                    symbols.push(x);
                    assert(views(symbols@) =~= views(before).push(xv));
                },
                None => {},
            }
            if symbols.len() >= max_symbols {
                return symbols;
            }
            i += 1;
        }
        assert(views(ls@).skip(i as int) =~= Seq::<Seq<char>>::empty());
        symbols
    }
}

/// The names declared in a text, line by line, until at least `max_symbols`
/// are found; the error of the first symbol pattern that does not compile.
pub fn extract_symbols(content: &str, max_symbols: usize) -> (r: Result<Vec<String>, String>)
    ensures
        match r {
            Ok(names) => first_bad_pattern(symbol_patterns()) is None && views(names@) == extract(content@, max_symbols as nat),
            Err(e) => first_bad_pattern(symbol_patterns()) == Some(e@),
        },
{
    match SymbolPatterns::compile() {
        Ok(p) => Ok(p.extract(content, max_symbols)),
        Err(e) => Err(e),
    }
}

} // verus!
