//! Recursive inclusion preprocessor for shader sources.
//!
//! Source text is a byte string. An inclusion directive is a `#` sign,
//! optional spacing, an optional `pragma` word, the inclusion keyword, at least
//! one space, and a file name between `<`/`"` and the next `>` or `"` on the
//! same line. The first directive of the text is replaced by the expanded
//! contents of the named file, and expansion continues in the remainder of
//! the text after the directive.
//!
//! The expander tracks the set of file names on the current inclusion path
//! (not globally: sibling inclusions may repeat a file). Including a file
//! already on the path fails with a cycle error naming that file; a name
//! absent from the file table fails with a missing-file error. The file
//! table is supplied by the caller, which reads the files from wherever they
//! live.

use vstd::prelude::*;

verus! {

/// Spacing accepted inside a directive: space, tab, line feed, carriage
/// return.
pub open spec fn is_space(b: u8) -> bool {
    b == 32 || b == 9 || b == 10 || b == 13
}

/// A byte that ends a file name: a closing `>` or `"`, or the end of the
/// line.
pub open spec fn is_name_terminator(b: u8) -> bool {
    b == 62 || b == 34 || b == 10
}

/// The bytes of the word `pragma`.
pub open spec fn pragma_lit() -> Seq<u8> {
    seq![112u8, 114u8, 97u8, 103u8, 109u8, 97u8]
}

/// The bytes of the inclusion keyword.
pub open spec fn include_lit() -> Seq<u8> {
    seq![105u8, 110u8, 99u8, 108u8, 117u8, 100u8, 101u8]
}

/// First position at or after `i` holding a byte that is not spacing.
pub open spec fn skip_spaces(s: Seq<u8>, i: int) -> int
    decreases s.len() - i,
{
    if 0 <= i < s.len() && is_space(s[i]) {
        skip_spaces(s, i + 1)
    } else {
        i
    }
}

/// The word `lit` occurs in `s` starting at position `i`.
pub open spec fn word_at(s: Seq<u8>, i: int, lit: Seq<u8>) -> bool {
    &&& 0 <= i
    &&& i + lit.len() <= s.len()
    &&& forall|k: int| 0 <= k < lit.len() ==> s[i + k] == lit[k]
}

/// First position at or after `i` holding a byte that terminates a file
/// name.
pub open spec fn name_end(s: Seq<u8>, i: int) -> int
    decreases s.len() - i,
{
    if 0 <= i < s.len() && !is_name_terminator(s[i]) {
        name_end(s, i + 1)
    } else {
        i
    }
}

/// Parses an inclusion directive starting exactly at position `i`. On a
/// match, yields the file name bounds and the position just past the
/// directive: `(name_start, name_end, end)`.
pub open spec fn directive_at(s: Seq<u8>, i: int) -> Option<(int, int, int)> {
    if !(0 <= i < s.len() && s[i] == 35) {
        None
    } else {
        let j0 = skip_spaces(s, i + 1);
        let j1 = if word_at(s, j0, pragma_lit()) {
            skip_spaces(s, j0 + 6)
        } else {
            j0
        };
        if !word_at(s, j1, include_lit()) {
            None
        } else {
            let j2 = j1 + 7;
            if !(j2 < s.len() && is_space(s[j2])) {
                None
            } else {
                let j3 = skip_spaces(s, j2);
                if !(j3 < s.len() && (s[j3] == 60 || s[j3] == 34)) {
                    None
                } else {
                    let ns = j3 + 1;
                    let ne = name_end(s, ns);
                    if ne < s.len() && (s[ne] == 62 || s[ne] == 34) {
                        Some((ns, ne, ne + 1))
                    } else {
                        None
                    }
                }
            }
        }
    }
}

/// The first directive at or after position `from`:
/// `(start, name_start, name_end, end)`.
pub open spec fn find_directive_from(s: Seq<u8>, from: int) -> Option<(int, int, int, int)>
    decreases s.len() - from,
{
    match directive_at(s, from) {
        Some(d) => Some((from, d.0, d.1, d.2)),
        None => if from >= s.len() {
            None
        } else {
            find_directive_from(s, from + 1)
        },
    }
}

proof fn lemma_skip_spaces_bounds(s: Seq<u8>, i: int)
    requires
        0 <= i <= s.len(),
    ensures
        i <= skip_spaces(s, i) <= s.len(),
    decreases s.len() - i,
{
    if i < s.len() && is_space(s[i]) {
        lemma_skip_spaces_bounds(s, i + 1);
    }
}

proof fn lemma_name_end_bounds(s: Seq<u8>, i: int)
    requires
        0 <= i <= s.len(),
    ensures
        i <= name_end(s, i) <= s.len(),
    decreases s.len() - i,
{
    if i < s.len() && !is_name_terminator(s[i]) {
        lemma_name_end_bounds(s, i + 1);
    }
}

proof fn lemma_directive_at_bounds(s: Seq<u8>, i: int)
    ensures
        directive_at(s, i) matches Some(d) ==> i < d.0 && d.0 <= d.1 && d.1 < d.2 && d.2
            <= s.len(),
{
    if directive_at(s, i) is Some {
        lemma_skip_spaces_bounds(s, i + 1);
        let j0 = skip_spaces(s, i + 1);
        if word_at(s, j0, pragma_lit()) {
            assert(pragma_lit().len() == 6);
            lemma_skip_spaces_bounds(s, j0 + 6);
        }
        let j1 = if word_at(s, j0, pragma_lit()) {
            skip_spaces(s, j0 + 6)
        } else {
            j0
        };
        assert(include_lit().len() == 7);
        let j2 = j1 + 7;
        lemma_skip_spaces_bounds(s, j2);
        let j3 = skip_spaces(s, j2);
        lemma_name_end_bounds(s, j3 + 1);
    }
}

proof fn lemma_find_from_bounds(s: Seq<u8>, from: int)
    ensures
        find_directive_from(s, from) matches Some(d) ==> from <= d.0 && d.0 < d.1 && d.1 <= d.2
            && d.2 < d.3 && d.3 <= s.len() && directive_at(s, d.0) == Some::<(int, int, int)>(
            (d.1, d.2, d.3),
        ),
    decreases s.len() - from,
{
    match directive_at(s, from) {
        Some(d) => {
            lemma_directive_at_bounds(s, from);
        },
        None => {
            if from < s.len() {
                lemma_find_from_bounds(s, from + 1);
            }
        },
    }
}

/// A named shader source held by the loader.
#[derive(Debug)]
pub struct FileEntry {
    pub name: Vec<u8>,
    pub data: Vec<u8>,
}

/// The set of files open to inclusion, keyed by name; the first
/// entry with a given name wins.
#[derive(Debug)]
pub struct FileTable {
    pub entries: Vec<FileEntry>,
}

/// Contents of the first entry of `files` named `name`.
pub open spec fn lookup_in(files: Seq<(Seq<u8>, Seq<u8>)>, name: Seq<u8>) -> Option<Seq<u8>>
    decreases files.len(),
{
    if files.len() == 0 {
        None
    } else if files[0].0 == name {
        Some(files[0].1)
    } else {
        lookup_in(files.skip(1), name)
    }
}

/// The names present in `files`.
pub open spec fn table_names(files: Seq<(Seq<u8>, Seq<u8>)>) -> Set<Seq<u8>> {
    files.map_values(|p: (Seq<u8>, Seq<u8>)| p.0).to_set()
}

/// The names of `files` not yet on the inclusion path; expansion can only
/// descend into these, which bounds the recursion.
pub open spec fn free_names(files: Seq<(Seq<u8>, Seq<u8>)>, seen: Set<Seq<u8>>) -> Set<Seq<u8>> {
    table_names(files).difference(seen)
}

proof fn lemma_lookup_in_names(files: Seq<(Seq<u8>, Seq<u8>)>, name: Seq<u8>)
    requires
        lookup_in(files, name) is Some,
    ensures
        table_names(files).contains(name),
    decreases files.len(),
{
    if files.len() > 0 && files[0].0 != name {
        lemma_lookup_in_names(files.skip(1), name);
        assert(files.skip(1).map_values(|p: (Seq<u8>, Seq<u8>)| p.0).contains(name));
        let ghost tail = files.skip(1).map_values(|p: (Seq<u8>, Seq<u8>)| p.0);
        let i = choose|i: int| 0 <= i < tail.len() && tail[i] == name;
        assert(files.map_values(|p: (Seq<u8>, Seq<u8>)| p.0)[i + 1] == name);
        assert(files.map_values(|p: (Seq<u8>, Seq<u8>)| p.0).contains(name));
    } else {
        assert(files.map_values(|p: (Seq<u8>, Seq<u8>)| p.0)[0] == name);
        assert(files.map_values(|p: (Seq<u8>, Seq<u8>)| p.0).contains(name));
    }
}

/// The outcome of an expansion: the flattened text, or the name at fault.
pub enum Expansion {
    Done(Seq<u8>),
    Cycle(Seq<u8>),
    Missing(Seq<u8>),
}

/// Expands the text of `code` from position `from` against the file table,
/// with `seen` the set of file names on the current inclusion path.
pub open spec fn expand_spec(
    files: Seq<(Seq<u8>, Seq<u8>)>,
    code: Seq<u8>,
    from: int,
    seen: Set<Seq<u8>>,
) -> Expansion
    decreases free_names(files, seen).len(), code.len() - from,
    via expand_spec_dec
{
    match find_directive_from(code, from) {
        None => Expansion::Done(code.subrange(from, code.len() as int)),
        Some(d) => {
            let name = code.subrange(d.1, d.2);
            if seen.contains(name) {
                Expansion::Cycle(name)
            } else {
                match lookup_in(files, name) {
                    None => Expansion::Missing(name),
                    Some(content) => match expand_spec(files, content, 0, seen.insert(name)) {
                        Expansion::Done(body) => match expand_spec(files, code, d.3, seen) {
                            Expansion::Done(rest) => Expansion::Done(
                                code.subrange(from, d.0) + body + rest,
                            ),
                            other => other,
                        },
                        other => other,
                    },
                }
            }
        },
    }
}

/// A failed expansion, carrying the file name at fault. `Cycle` means the
/// file is already on the current inclusion path; `Missing` means the file
/// table has no entry of that name.
#[derive(Debug, PartialEq, Eq)]
pub enum PreprocessError {
    Cycle { name: Vec<u8> },
    Missing { name: Vec<u8> },
}

/// The mathematical reading of an expansion result.
pub open spec fn expansion_of(r: Result<Vec<u8>, PreprocessError>) -> Expansion {
    match r {
        Ok(v) => Expansion::Done(v@),
        Err(PreprocessError::Cycle { name }) => Expansion::Cycle(name@),
        Err(PreprocessError::Missing { name }) => Expansion::Missing(name@),
    }
}

#[via_fn]
proof fn expand_spec_dec(
    files: Seq<(Seq<u8>, Seq<u8>)>,
    code: Seq<u8>,
    from: int,
    seen: Set<Seq<u8>>,
) {
    broadcast use vstd::seq_lib::seq_to_set_is_finite;
    broadcast use vstd::set::group_set_axioms;

    match find_directive_from(code, from) {
        None => {},
        Some(d) => {
            lemma_find_from_bounds(code, from);
            let name = code.subrange(d.1, d.2);
            if !seen.contains(name) && lookup_in(files, name) is Some {
                lemma_lookup_in_names(files, name);
                table_names(files).lemma_set_insert_diff_decreases(seen, name);
            }
        },
    }
}

/// Byte-wise equality of two byte strings.
pub fn eq_bytes(a: &[u8], b: &[u8]) -> (r: bool)
    ensures
        r == (a@ == b@),
{
    if a.len() != b.len() {
        return false;
    }
    let n = a.len();
    let mut i: usize = 0;
    while i < n
        invariant
            i <= n,
            n == a@.len() && n == b@.len(),
            forall|k: int| 0 <= k < i ==> a@[k] == b@[k],
        decreases n - i,
    {
        if a[i] != b[i] {
            return false;
        }
        i = i + 1;
    }
    proof {
        assert(a@ =~= b@);
    }
    true
}

/// Copy of a range of a byte string, appended to `out`.
fn append_range(out: &mut Vec<u8>, src: &[u8], lo: usize, hi: usize)
    requires
        lo <= hi <= src@.len(),
    ensures
        final(out)@ == old(out)@ + src@.subrange(lo as int, hi as int),
{
    let ghost out0 = out@;
    let mut i: usize = lo;
    while i < hi
        invariant
            lo <= i <= hi <= src@.len(),
            out@ == out0 + src@.subrange(lo as int, i as int),
        decreases hi - i,
    {
        out.push(src[i]);
        proof {
            assert(out@ =~= out0 + src@.subrange(lo as int, i + 1));
        }
        i = i + 1;
    }
    proof {
        assert(out@ =~= out0 + src@.subrange(lo as int, hi as int));
    }
}

/// Owned copy of a range of a byte string.
pub(crate) fn copy_range(src: &[u8], lo: usize, hi: usize) -> (r: Vec<u8>)
    requires
        lo <= hi <= src@.len(),
    ensures
        r@ == src@.subrange(lo as int, hi as int),
{
    let mut out: Vec<u8> = Vec::new();
    append_range(&mut out, src, lo, hi);
    proof {
        assert(out@ =~= src@.subrange(lo as int, hi as int));
    }
    out
}

fn is_space_exec(b: u8) -> (r: bool)
    ensures
        r == is_space(b),
{
    b == 32 || b == 9 || b == 10 || b == 13
}

fn skip_spaces_exec(code: &[u8], from: usize) -> (r: usize)
    requires
        from <= code@.len(),
    ensures
        r == skip_spaces(code@, from as int),
        from <= r <= code@.len(),
{
    let n = code.len();
    let mut i: usize = from;
    while i < n && is_space_exec(code[i])
        invariant
            from <= i <= n,
            n == code@.len(),
            skip_spaces(code@, from as int) == skip_spaces(code@, i as int),
        decreases n - i,
    {
        i = i + 1;
    }
    i
}

fn name_end_exec(code: &[u8], from: usize) -> (r: usize)
    requires
        from <= code@.len(),
    ensures
        r == name_end(code@, from as int),
        from <= r <= code@.len(),
{
    let n = code.len();
    let mut i: usize = from;
    while i < n && !(code[i] == 62 || code[i] == 34 || code[i] == 10)
        invariant
            from <= i <= n,
            n == code@.len(),
            name_end(code@, from as int) == name_end(code@, i as int),
        decreases n - i,
    {
        i = i + 1;
    }
    i
}

/// Whether `word` occurs in `code` at position `i`.
fn word_at_exec(code: &[u8], i: usize, word: &[u8]) -> (r: bool)
    ensures
        r == word_at(code@, i as int, word@),
{
    let n = word.len();
    if code.len() < n || i > code.len() - n {
        return false;
    }
    let mut k: usize = 0;
    while k < n
        invariant
            k <= n,
            n == word@.len(),
            i + n <= code@.len(),
            code@.len() <= usize::MAX,
            forall|t: int| 0 <= t < k ==> code@[i + t] == word@[t],
        decreases n - k,
    {
        if code[i + k] != word[k] {
            proof {
                assert(code@[i + k as int] != word@[k as int]);
            }
            return false;
        }
        k = k + 1;
    }
    true
}

/// The word `pragma` as bytes.
fn pragma_word() -> (r: Vec<u8>)
    ensures
        r@ == pragma_lit(),
{
    let mut v: Vec<u8> = Vec::new();
    v.push(112);
    v.push(114);
    v.push(97);
    v.push(103);
    v.push(109);
    v.push(97);
    proof {
        assert(v@ =~= pragma_lit());
    }
    v
}

/// The inclusion keyword as bytes.
fn include_word() -> (r: Vec<u8>)
    ensures
        r@ == include_lit(),
{
    let mut v: Vec<u8> = Vec::new();
    v.push(105);
    v.push(110);
    v.push(99);
    v.push(108);
    v.push(117);
    v.push(100);
    v.push(101);
    proof {
        assert(v@ =~= include_lit());
    }
    v
}

/// Parses a directive starting exactly at `i`.
fn directive_at_exec(code: &[u8], i: usize, pragma: &[u8], inc_word: &[u8]) -> (r: Option<
    (usize, usize, usize),
>)
    requires
        pragma@ == pragma_lit(),
        inc_word@ == include_lit(),
        i < code@.len(),
    ensures
        match r {
            Some(d) => directive_at(code@, i as int) == Some::<(int, int, int)>(
                (d.0 as int, d.1 as int, d.2 as int),
            ) && d.2 <= code@.len(),
            None => directive_at(code@, i as int) is None,
        },
{
    if code[i] != 35 {
        return None;
    }
    let j0 = skip_spaces_exec(code, i + 1);
    let j1 = if word_at_exec(code, j0, pragma) {
        proof {
            assert(pragma_lit().len() == 6);
        }
        skip_spaces_exec(code, j0 + 6)
    } else {
        j0
    };
    if !word_at_exec(code, j1, inc_word) {
        return None;
    }
    proof {
        assert(include_lit().len() == 7);
    }
    let j2 = j1 + 7;
    if !(j2 < code.len() && is_space_exec(code[j2])) {
        return None;
    }
    let j3 = skip_spaces_exec(code, j2);
    if !(j3 < code.len() && (code[j3] == 60 || code[j3] == 34)) {
        return None;
    }
    let ns = j3 + 1;
    let ne = name_end_exec(code, ns);
    if ne < code.len() && (code[ne] == 62 || code[ne] == 34) {
        Some((ns, ne, ne + 1))
    } else {
        None
    }
}

/// The first directive of `code` at or after position `from`:
/// `(start, name_start, name_end, end)`.
fn find_directive_exec(code: &[u8], from: usize, pragma: &[u8], inc_word: &[u8]) -> (r: Option<
    (usize, usize, usize, usize),
>)
    requires
        pragma@ == pragma_lit(),
        inc_word@ == include_lit(),
        from <= code@.len(),
    ensures
        match r {
            Some(d) => find_directive_from(code@, from as int) == Some::<(int, int, int, int)>(
                (d.0 as int, d.1 as int, d.2 as int, d.3 as int),
            ),
            None => find_directive_from(code@, from as int) is None,
        },
{
    let n = code.len();
    let mut i: usize = from;
    while i < n
        invariant
            from <= i <= n,
            n == code@.len(),
            pragma@ == pragma_lit(),
            inc_word@ == include_lit(),
            find_directive_from(code@, from as int) == find_directive_from(code@, i as int),
        decreases n - i,
    {
        match directive_at_exec(code, i, pragma, inc_word) {
            Some(d) => {
                return Some((i, d.0, d.1, d.2));
            },
            None => {},
        }
        i = i + 1;
    }
    None
}

impl FileTable {
    /// The table as a sequence of name/contents pairs.
    pub open spec fn model(&self) -> Seq<(Seq<u8>, Seq<u8>)> {
        self.entries@.map_values(|e: FileEntry| (e.name@, e.data@))
    }

    /// An empty table.
    pub fn new() -> (r: Self)
        ensures
            r.model() =~= Seq::<(Seq<u8>, Seq<u8>)>::empty(),
    {
        FileTable { entries: Vec::new() }
    }

    /// Adds a file at the end of the table; an earlier entry of the same
    /// name keeps priority.
    pub fn insert(&mut self, name: Vec<u8>, data: Vec<u8>)
        ensures
            final(self).model() == old(self).model().push((name@, data@)),
    {
        let ghost pre = self.model();
        let ghost n = name@;
        let ghost d = data@;
        self.entries.push(FileEntry { name, data });
        proof {
            assert(self.model() =~= pre.push((n, d)));
        }
    }

    /// Index of the first entry named `name`.
    fn find(&self, name: &[u8]) -> (r: Option<usize>)
        ensures
            match r {
                Some(i) => i < self.entries@.len() && self.entries@[i as int].name@ == name@
                    && lookup_in(self.model(), name@) == Some(self.entries@[i as int].data@),
                None => lookup_in(self.model(), name@) is None,
            },
    {
        let n = self.entries.len();
        proof {
            assert(self.model().skip(0) =~= self.model());
        }
        let mut i: usize = 0;
        while i < n
            invariant
                i <= n,
                n == self.entries@.len(),
                lookup_in(self.model(), name@) == lookup_in(self.model().skip(i as int), name@),
            decreases n - i,
        {
            if eq_bytes(self.entries[i].name.as_slice(), name) {
                proof {
                    assert(self.model().skip(i as int)[0] == self.model()[i as int]);
                }
                return Some(i);
            }
            proof {
                assert(self.model().skip(i as int)[0] == self.model()[i as int]);
                assert(self.model().skip(i as int).skip(1) =~= self.model().skip(i + 1));
            }
            i = i + 1;
        }
        proof {
            assert(self.model().skip(n as int) =~= Seq::<(Seq<u8>, Seq<u8>)>::empty());
        }
        None
    }
}

/// The names on the current inclusion path, as a set.
pub open spec fn seen_set(s: Seq<Vec<u8>>) -> Set<Seq<u8>> {
    s.map_values(|v: Vec<u8>| v@).to_set()
}

/// Whether `name` is on the current inclusion path.
fn seen_contains(seen: &Vec<Vec<u8>>, name: &[u8]) -> (r: bool)
    ensures
        r == seen_set(seen@).contains(name@),
{
    let n = seen.len();
    let mut i: usize = 0;
    while i < n
        invariant
            i <= n,
            n == seen@.len(),
            forall|k: int| 0 <= k < i ==> seen@[k]@ != name@,
        decreases n - i,
    {
        if eq_bytes(seen[i].as_slice(), name) {
            proof {
                assert(seen@.map_values(|v: Vec<u8>| v@)[i as int] == name@);
                assert(seen@.map_values(|v: Vec<u8>| v@).contains(name@));
            }
            return true;
        }
        i = i + 1;
    }
    proof {
        let m = seen@.map_values(|v: Vec<u8>| v@);
        assert forall|k: int| 0 <= k < m.len() implies m[k] != name@ by {
            assert(m[k] == seen@[k]@);
        }
        assert(!m.contains(name@));
    }
    false
}

/// Expands `code` from position `from`, with `seen` the inclusion path.
fn expand_at(files: &FileTable, code: &[u8], from: usize, seen: &mut Vec<Vec<u8>>) -> (r: Result<
    Vec<u8>,
    PreprocessError,
>)
    requires
        from <= code@.len(),
    ensures
        expansion_of(r) == expand_spec(files.model(), code@, from as int, seen_set(old(seen)@)),
        r is Ok ==> final(seen)@ == old(seen)@,
    decreases free_names(files.model(), seen_set(seen@)).len(), code@.len() - from,
{
    broadcast use vstd::seq_lib::seq_to_set_is_finite;
    broadcast use vstd::prelude::Seq::lemma_push_to_set_commute;
    broadcast use vstd::set::group_set_axioms;

    let pragma = pragma_word();
    let include_w = include_word();
    let found = find_directive_exec(code, from, pragma.as_slice(), include_w.as_slice());
    match found {
        None => {
            let out = copy_range(code, from, code.len());
            Ok(out)
        },
        Some(d) => {
            proof {
                lemma_find_from_bounds(code@, from as int);
            }
            let (start, ns, ne, end) = d;
            let name = copy_range(code, ns, ne);
            if seen_contains(seen, name.as_slice()) {
                return Err(PreprocessError::Cycle { name });
            }
            match files.find(name.as_slice()) {
                None => Err(PreprocessError::Missing { name }),
                Some(idx) => {
                    let ghost seen0 = seen@;
                    let name_copy = copy_range(name.as_slice(), 0, name.len());
                    proof {
                        assert(name_copy@ =~= name@);
                    }
                    seen.push(name_copy);
                    proof {
                        assert(seen@.map_values(|v: Vec<u8>| v@) =~= seen0.map_values(
                            |v: Vec<u8>| v@,
                        ).push(name@));
                        assert(seen_set(seen@) == seen_set(seen0).insert(name@));
                        lemma_lookup_in_names(files.model(), name@);
                        table_names(files.model()).lemma_set_insert_diff_decreases(
                            seen_set(seen0),
                            name@,
                        );
                    }
                    let body = match expand_at(files, self_data(files, idx), 0, seen) {
                        Ok(v) => v,
                        Err(e) => {
                            return Err(e);
                        },
                    };
                    let _ = seen.pop();
                    proof {
                        assert(seen@ =~= seen0);
                    }
                    let rest = match expand_at(files, code, end, seen) {
                        Ok(v) => v,
                        Err(e) => {
                            return Err(e);
                        },
                    };
                    let mut out: Vec<u8> = Vec::new();
                    append_range(&mut out, code, from, start);
                    append_range(&mut out, body.as_slice(), 0, body.len());
                    append_range(&mut out, rest.as_slice(), 0, rest.len());
                    proof {
                        assert(body@.subrange(0, body@.len() as int) =~= body@);
                        assert(rest@.subrange(0, rest@.len() as int) =~= rest@);
                        assert(out@ =~= code@.subrange(from as int, start as int) + body@ + rest@);
                    }
                    Ok(out)
                },
            }
        },
    }
}

/// Contents of table entry `idx`.
fn self_data(files: &FileTable, idx: usize) -> (r: &[u8])
    requires
        idx < files.entries@.len(),
    ensures
        r@ == files.entries@[idx as int].data@,
{
    files.entries[idx].data.as_slice()
}

/// Expands a piece of source text that is not itself a file of the table:
/// the inclusion path starts empty.
pub fn preprocess(files: &FileTable, code: &[u8]) -> (r: Result<Vec<u8>, PreprocessError>)
    ensures
        expansion_of(r) == expand_spec(files.model(), code@, 0, Set::empty()),
{
    let mut seen: Vec<Vec<u8>> = Vec::new();
    proof {
        assert(seen_set(seen@) =~= Set::<Seq<u8>>::empty());
        assert(seen@.map_values(|v: Vec<u8>| v@) =~= Seq::<Seq<u8>>::empty());
    }
    expand_at(files, code, 0, &mut seen)
}

/// Expands the named file of the table. The file itself is on the inclusion
/// path from the start, so a chain of inclusions leading back to it reports
/// a cycle naming this file.
pub fn expand_file(files: &FileTable, name: &[u8]) -> (r: Result<Vec<u8>, PreprocessError>)
    ensures
        lookup_in(files.model(), name@) is None ==> expansion_of(r) == Expansion::Missing(name@),
        lookup_in(files.model(), name@) matches Some(content) ==> expansion_of(r) == expand_spec(
            files.model(),
            content,
            0,
            Set::empty().insert(name@),
        ),
{
    broadcast use vstd::seq_lib::seq_to_set_is_finite;
    broadcast use vstd::prelude::Seq::lemma_push_to_set_commute;
    broadcast use vstd::set::group_set_axioms;

    match files.find(name) {
        None => {
            let owned = copy_range(name, 0, name.len());
            proof {
                assert(owned@ =~= name@);
            }
            Err(PreprocessError::Missing { name: owned })
        },
        Some(idx) => {
            let root = copy_range(name, 0, name.len());
            proof {
                assert(root@ =~= name@);
            }
            let mut seen: Vec<Vec<u8>> = Vec::new();
            seen.push(root);
            proof {
                let m0 = Seq::<Seq<u8>>::empty();
                let m = seen@.map_values(|v: Vec<u8>| v@);
                assert(m =~= m0.push(name@));
                assert(m.to_set() == m0.to_set().insert(name@));
                assert(m0.to_set() =~= Set::<Seq<u8>>::empty());
                assert(seen_set(seen@) =~= Set::<Seq<u8>>::empty().insert(name@));
            }
            expand_at(files, self_data(files, idx), 0, &mut seen)
        },
    }
}

/// A missing-file failure really is a missing file: whenever expansion
/// reports `Missing(n)`, the table holds no file named `n`.
pub proof fn lemma_missing_names_absent_file(
    files: Seq<(Seq<u8>, Seq<u8>)>,
    code: Seq<u8>,
    from: int,
    seen: Set<Seq<u8>>,
)
    ensures
        expand_spec(files, code, from, seen) matches Expansion::Missing(n) ==> lookup_in(
            files,
            n,
        ) is None,
    decreases free_names(files, seen).len(), code.len() - from,
{
    broadcast use vstd::seq_lib::seq_to_set_is_finite;
    broadcast use vstd::set::group_set_axioms;

    match find_directive_from(code, from) {
        None => {},
        Some(d) => {
            lemma_find_from_bounds(code, from);
            let name = code.subrange(d.1, d.2);
            if !seen.contains(name) {
                match lookup_in(files, name) {
                    None => {},
                    Some(content) => {
                        lemma_lookup_in_names(files, name);
                        table_names(files).lemma_set_insert_diff_decreases(seen, name);
                        lemma_missing_names_absent_file(files, content, 0, seen.insert(name));
                        lemma_missing_names_absent_file(files, code, d.3, seen);
                    },
                }
            }
        },
    }
}

/// A cycle failure names a repeat: whenever expansion reports `Cycle(n)`,
/// the name `n` was already on the inclusion path when its directive was
/// met — it lay in the starting path `seen`, or it is a table file the
/// expansion had descended into.
pub proof fn lemma_cycle_names_path_member(
    files: Seq<(Seq<u8>, Seq<u8>)>,
    code: Seq<u8>,
    from: int,
    seen: Set<Seq<u8>>,
)
    ensures
        expand_spec(files, code, from, seen) matches Expansion::Cycle(n) ==> seen.contains(n)
            || table_names(files).contains(n),
    decreases free_names(files, seen).len(), code.len() - from,
{
    broadcast use vstd::seq_lib::seq_to_set_is_finite;
    broadcast use vstd::set::group_set_axioms;

    match find_directive_from(code, from) {
        None => {},
        Some(d) => {
            lemma_find_from_bounds(code, from);
            let name = code.subrange(d.1, d.2);
            if !seen.contains(name) {
                match lookup_in(files, name) {
                    None => {},
                    Some(content) => {
                        lemma_lookup_in_names(files, name);
                        table_names(files).lemma_set_insert_diff_decreases(seen, name);
                        lemma_cycle_names_path_member(files, content, 0, seen.insert(name));
                        lemma_cycle_names_path_member(files, code, d.3, seen);
                    },
                }
            }
        },
    }
}

/// Text with no inclusion directive expands to itself, whatever the file
/// table and the inclusion path: expansion is the identity on
/// fully-flattened text, so expanding twice gives what expanding once gave.
pub proof fn lemma_expand_flat_identity(
    files: Seq<(Seq<u8>, Seq<u8>)>,
    code: Seq<u8>,
    seen: Set<Seq<u8>>,
)
    requires
        find_directive_from(code, 0) is None,
    ensures
        expand_spec(files, code, 0, seen) == Expansion::Done(code),
{
    assert(code.subrange(0, code.len() as int) =~= code);
}

} // verus!
