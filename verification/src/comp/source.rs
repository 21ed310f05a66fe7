//! Source files, positions in them, and interned strings.
use vstd::prelude::*;
use vstd::string::StringExecFns;

verus! {

/// Whether the two strings hold the same characters.
pub fn same_text(a: &str, b: &str) -> (r: bool)
    ensures
        r == (a@ == b@),
{
    let len = a.unicode_len();
    if len != b.unicode_len() {
        return false;
    }
    let mut i: usize = 0;
    while i < len
        invariant
            len == a@.len() == b@.len(),
            i <= len,
            forall|k: int| 0 <= k < i ==> a@[k] == b@[k],
        decreases len - i,
    {
        if a.get_char(i) != b.get_char(i) {
            return false;
        }
        i = i + 1;
    }
    assert(a@ =~= b@);
    true
}

/// The index of an interned string.
#[derive(Debug, Clone, Copy, PartialEq, Eq, Hash, Structural)]
pub struct StringId(pub usize);

/// A table of distinct strings, each named by its index.
pub struct StringInterner {
    strings: Vec<String>,
}

impl View for StringInterner {
    type V = Seq<Seq<char>>;

    closed spec fn view(&self) -> Seq<Seq<char>> {
        self.strings@.map_values(|s: String| s@)
    }
}

/// The first index of `s` in `strings`, or the length when it is absent.
pub open spec fn first_index(strings: Seq<Seq<char>>, s: Seq<char>, from: int) -> int
    decreases strings.len() - from,
{
    if from >= strings.len() || from < 0 {
        strings.len() as int
    } else if strings[from] == s {
        from
    } else {
        first_index(strings, s, from + 1)
    }
}

pub proof fn lemma_first_index(strings: Seq<Seq<char>>, s: Seq<char>, from: int)
    requires
        0 <= from <= strings.len(),
    ensures
        from <= first_index(strings, s, from) <= strings.len(),
        first_index(strings, s, from) < strings.len() ==> strings[first_index(strings, s, from)]
            == s,
        forall|k: int| from <= k < first_index(strings, s, from) ==> strings[k] != s,
    decreases strings.len() - from,
{
    if from < strings.len() && strings[from] != s {
        lemma_first_index(strings, s, from + 1);
    }
}

/// The table and the index that interning `s` into `table` gives: the
/// index of `s` where it is present, else a new last entry.
pub open spec fn interned(table: Seq<Seq<char>>, s: Seq<char>) -> (Seq<Seq<char>>, int) {
    if table.contains(s) {
        (table, first_index(table, s, 0))
    } else {
        (table.push(s), table.len() as int)
    }
}

/// Interning the same string twice gives the same index, the second time
/// without changing the table, and the index names the string.
pub proof fn lemma_intern_twice(table: Seq<Seq<char>>, s: Seq<char>)
    ensures
        interned(interned(table, s).0, s) == interned(table, s),
        0 <= interned(table, s).1 < interned(table, s).0.len(),
        interned(table, s).0[interned(table, s).1] == s,
{
    lemma_first_index(table, s, 0);
    if !table.contains(s) {
        let t1 = table.push(s);
        assert(t1[table.len() as int] == s);
        assert(t1.contains(s));
        lemma_first_index(t1, s, 0);
        let fi = first_index(t1, s, 0);
        if fi < table.len() {
            assert(table[fi] == s);
            assert(table.contains(s));
        }
    } else {
        let j = choose|j: int| 0 <= j < table.len() && table[j] == s;
        assert(first_index(table, s, 0) <= j) by {
            if first_index(table, s, 0) > j {
                assert(table[j] != s);
            }
        }
    }
}

impl StringInterner {
    /// No string occurs twice.
    pub open spec fn wf(&self) -> bool {
        forall|i: int, j: int|
            0 <= i < j < self@.len() ==> #[trigger] self@[i] != #[trigger] self@[j]
    }

    pub fn new() -> (r: StringInterner)
        ensures
            r@ == Seq::<Seq<char>>::empty(),
            r.wf(),
    {
        let r = StringInterner { strings: Vec::new() };
        assert(r@ =~= Seq::<Seq<char>>::empty());
        r
    }

    /// The id of `string`, which is added when it is new.
    pub fn intern(&mut self, string: String) -> (r: StringId)
        requires
            old(self).wf(),
        ensures
            final(self).wf(),
            old(self)@.contains(string@) ==> final(self)@ == old(self)@ && r.0 == first_index(
                old(self)@,
                string@,
                0,
            ),
            !old(self)@.contains(string@) ==> final(self)@ == old(self)@.push(string@) && r.0
                == old(self)@.len(),
            r.0 < final(self)@.len(),
            final(self)@[r.0 as int] == string@,
            (final(self)@, r.0 as int) == interned(old(self)@, string@),
    {
        let mut i: usize = 0;
        proof {
            lemma_first_index(self@, string@, 0);
        }
        while i < self.strings.len()
            invariant
                i <= self.strings@.len(),
                self@.len() == self.strings@.len(),
                forall|k: int| 0 <= k < i ==> self@[k] != string@,
                self@ == old(self)@,
                self.wf(),
            decreases self.strings@.len() - i,
        {
            assert(self@[i as int] == self.strings@[i as int]@);
            if self.strings[i] == string {
                proof {
                    lemma_first_index(self@, string@, 0);
                    if first_index(self@, string@, 0) < i {
                        assert(self@[first_index(self@, string@, 0)] == string@);
                    }
                }
                return StringId(i);
            }
            i = i + 1;
        }
        let index = self.strings.len();
        proof {
            assert(!old(self)@.contains(string@));
        }
        self.strings.push(string);
        proof {
            assert(self@ =~= old(self)@.push(string@));
            assert forall|a: int, b: int| 0 <= a < b < self@.len() implies #[trigger] self@[a]
                != #[trigger] self@[b] by {
                if b == index {
                    assert(self@[a] == old(self)@[a]);
                }
            }
        }
        StringId(index)
    }

    /// The string named by `id`.
    pub fn get(&self, id: StringId) -> (r: &str)
        requires
            id.0 < self@.len(),
        ensures
            r@ == self@[id.0 as int],
    {
        assert(self@[id.0 as int] == self.strings@[id.0 as int]@);
        self.strings[id.0].as_str()
    }
}

/// A range of character offsets.
#[derive(Debug, Clone, Copy, PartialEq, Eq, Structural)]
pub struct Span {
    pub start: usize,
    pub len: usize,
}

impl Span {
    pub open spec fn spec_end(self) -> int {
        self.start + self.len
    }

    /// The span from `start` up to `end`.
    pub fn new(start: usize, end: usize) -> (r: Span)
        requires
            start <= end,
        ensures
            r.start == start && r.spec_end() == end,
    {
        Span { start, len: end - start }
    }

    pub fn end(&self) -> (r: usize)
        requires
            self.spec_end() <= usize::MAX,
        ensures
            r == self.spec_end(),
    {
        self.start + self.len
    }

    /// The smallest span that covers both.
    pub fn combine(self, span: Span) -> (r: Span)
        requires
            self.spec_end() <= usize::MAX,
            span.spec_end() <= usize::MAX,
        ensures
            r.start == if self.start <= span.start { self.start } else { span.start },
            r.spec_end() == if self.spec_end() >= span.spec_end() {
                self.spec_end()
            } else {
                span.spec_end()
            },
    {
        let start = if self.start <= span.start {
            self.start
        } else {
            span.start
        };
        let end = if self.end() >= span.end() {
            self.end()
        } else {
            span.end()
        };
        Span::new(start, end)
    }
}

/// The index of a source file.
#[derive(Debug, Clone, Copy, PartialEq, Eq, Structural)]
pub struct SourceTextId(pub usize);

/// A span of a source file.
#[derive(Debug, Clone, Copy, PartialEq, Eq, Structural)]
pub struct Location {
    pub span: Span,
    pub file: SourceTextId,
}

impl Location {
    /// The location with its end moved to `end`.
    pub fn with_end_at(self, end: usize) -> (r: Location)
        requires
            self.span.start <= end,
        ensures
            r.file == self.file,
            r.span.start == self.span.start,
            r.span.spec_end() == end,
    {
        Location { span: Span { start: self.span.start, len: end - self.span.start }, ..self }
    }

    /// The location that covers both; locations of different files cannot
    /// be combined.
    pub fn combine(self, other: Option<Location>) -> (r: Location)
        requires
            self.span.spec_end() <= usize::MAX,
            other matches Some(o) ==> o.file == self.file && o.span.spec_end() <= usize::MAX,
        ensures
            r.file == self.file,
            match other {
                Some(o) => r.span.start == (if self.span.start <= o.span.start {
                    self.span.start
                } else {
                    o.span.start
                }) && r.span.spec_end() == (if self.span.spec_end() >= o.span.spec_end() {
                    self.span.spec_end()
                } else {
                    o.span.spec_end()
                }),
                None => r == self,
            },
    {
        match other {
            Some(other) => Location { span: self.span.combine(other.span), ..self },
            None => self,
        }
    }
}

/// Something that sits at a location of the source.
pub trait HasLocation {
    spec fn spec_location(&self) -> Location;

    fn location(&self) -> (r: Location)
        ensures
            r == self.spec_location(),
    ;
}

/// The offsets right after each line break of `s`, after a 0 for the first
/// line, in ascending order.
pub open spec fn line_starts_of(s: Seq<char>, upto: int) -> Seq<usize>
    decreases upto,
{
    if upto <= 0 {
        seq![0usize]
    } else if s[upto - 1] == '\n' {
        line_starts_of(s, upto - 1).push(upto as usize)
    } else {
        line_starts_of(s, upto - 1)
    }
}

/// The number of entries of `starts` that are at most `offset`.
pub open spec fn count_at_most(starts: Seq<usize>, offset: usize) -> nat
    decreases starts.len(),
{
    if starts.len() == 0 {
        0
    } else {
        count_at_most(starts.drop_last(), offset) + if starts.last() <= offset {
            1nat
        } else {
            0nat
        }
    }
}

/// A source file: its name, its text and where its lines start.
pub struct SourceTextFile {
    file_name: String,
    content: String,
    line_starts: Vec<usize>,
}

impl SourceTextFile {
    pub closed spec fn name(&self) -> Seq<char> {
        self.file_name@
    }

    pub closed spec fn text(&self) -> Seq<char> {
        self.content@
    }

    pub closed spec fn starts(&self) -> Seq<usize> {
        self.line_starts@
    }

    /// The line starts are those of the text, and the text fits in memory.
    pub closed spec fn wf(&self) -> bool {
        &&& self.line_starts@ == line_starts_of(self.content@, self.content@.len() as int)
        &&& self.content@.len() + 2 <= usize::MAX
    }

    /// The file `file_name` with the text `content`.
    pub fn from_string(file_name: String, content: String) -> (r: SourceTextFile)
        requires
            content@.len() + 2 <= usize::MAX,
        ensures
            r.wf(),
            r.name() == file_name@,
            r.text() == content@,
    {
        let line_starts = Self::collect_line_starts(content.as_str());
        SourceTextFile { file_name, content, line_starts }
    }

    /// 0, and the offset after every line break.
    pub fn collect_line_starts(content: &str) -> (r: Vec<usize>)
        requires
            content@.len() < usize::MAX,
        ensures
            r@ == line_starts_of(content@, content@.len() as int),
    {
        let len = content.unicode_len();
        let mut line_starts: Vec<usize> = Vec::new();
        line_starts.push(0);
        let mut i: usize = 0;
        while i < len
            invariant
                len == content@.len() < usize::MAX,
                i <= len,
                line_starts@ == line_starts_of(content@, i as int),
            decreases len - i,
        {
            if content.get_char(i) == '\n' {
                line_starts.push(i + 1);
            }
            i = i + 1;
        }
        line_starts
    }

    /// The number of characters.
    pub fn len(&self) -> (r: usize)
        ensures
            r == self.text().len(),
    {
        self.content.as_str().unicode_len()
    }

    /// The text of the file.
    pub fn content(&self) -> (r: &str)
        ensures
            r@ == self.text(),
    {
        self.content.as_str()
    }

    /// Whether the text fits in memory with room to spare.
    pub proof fn lemma_wf(&self)
        requires
            self.wf(),
        ensures
            self.text().len() + 2 <= usize::MAX,
    {
    }

    /// The name of the file.
    pub fn file_name(&self) -> (r: &str)
        ensures
            r@ == self.name(),
    {
        self.file_name.as_str()
    }

    /// The 1-based line of `offset`: the number of line starts up to it.
    pub fn line_number(&self, offset: usize) -> (r: usize)
        ensures
            r == count_at_most(self.starts(), offset),
    {
        let mut count: usize = 0;
        let mut i: usize = 0;
        while i < self.line_starts.len()
            invariant
                i <= self.line_starts@.len(),
                count == count_at_most(self.line_starts@.subrange(0, i as int), offset),
                count <= i,
            decreases self.line_starts@.len() - i,
        {
            proof {
                assert(self.line_starts@.subrange(0, i + 1).drop_last() =~= self.line_starts@.subrange(
                    0,
                    i as int,
                ));
            }
            if self.line_starts[i] <= offset {
                count = count + 1;
            }
            i = i + 1;
        }
        proof {
            assert(self.line_starts@.subrange(0, i as int) =~= self.line_starts@);
        }
        count
    }

    /// The offset of `offset` in its line.
    pub fn column(&self, offset: usize) -> (r: usize)
        requires
            self.wf(),
        ensures
            count_at_most(self.starts(), offset) >= 1,
            r == offset - self.starts()[count_at_most(self.starts(), offset) - 1],
    {
        proof {
            lemma_line_starts(self.content@, self.content@.len() as int);
            lemma_count_at_most(self.starts(), offset);
        }
        let line_number = self.line_number(offset);
        offset - self.line_starts[line_number - 1]
    }

    /// The characters of `span`.
    pub fn slice(&self, span: Span) -> (r: String)
        requires
            self.wf(),
            span.spec_end() <= self.text().len(),
        ensures
            r@ == self.text().subrange(span.start as int, span.spec_end()),
    {
        String::from_str(self.content.as_str().substring_char(span.start, span.start + span.len))
    }
}

/// Line starts begin with 0 and ascend strictly.
pub proof fn lemma_line_starts(s: Seq<char>, upto: int)
    requires
        0 <= upto <= s.len(),
        s.len() <= usize::MAX,
    ensures
        line_starts_of(s, upto).len() >= 1,
        line_starts_of(s, upto)[0] == 0,
        forall|i: int, j: int|
            0 <= i < j < line_starts_of(s, upto).len() ==> line_starts_of(s, upto)[i]
                < line_starts_of(s, upto)[j],
        forall|i: int| 0 <= i < line_starts_of(s, upto).len() ==> line_starts_of(s, upto)[i] <= upto,
    decreases upto,
{
    if upto > 0 {
        lemma_line_starts(s, upto - 1);
        let prev = line_starts_of(s, upto - 1);
        let cur = line_starts_of(s, upto);
        if s[upto - 1] == '\n' {
            assert forall|i: int, j: int| 0 <= i < j < cur.len() implies cur[i] < cur[j] by {
                assert(cur[i] == prev[i]);
                assert(prev[i] <= upto - 1);
                if j < cur.len() - 1 {
                    assert(cur[j] == prev[j]);
                }
            }
        }
    }
}

/// In ascending starts that begin with 0, the starts up to `offset` are a
/// prefix whose last entry is at most `offset`.
pub proof fn lemma_count_at_most(starts: Seq<usize>, offset: usize)
    requires
        starts.len() >= 1,
        starts[0] == 0,
        forall|i: int, j: int| 0 <= i < j < starts.len() ==> starts[i] < starts[j],
    ensures
        1 <= count_at_most(starts, offset) <= starts.len(),
        starts[count_at_most(starts, offset) - 1] <= offset,
    decreases starts.len(),
{
    if starts.last() <= offset {
        lemma_count_prefix(starts, offset);
    } else if starts.len() > 1 {
        let prefix = starts.drop_last();
        assert forall|i: int, j: int| 0 <= i < j < prefix.len() implies prefix[i] < prefix[j] by {
            assert(prefix[i] == starts[i] && prefix[j] == starts[j]);
        }
        lemma_count_at_most(prefix, offset);
        assert(prefix[count_at_most(prefix, offset) - 1] == starts[count_at_most(prefix, offset)
            - 1]);
    }
}

/// In ascending starts, the count of those up to `offset` is the length of
/// the prefix where they all are.
pub proof fn lemma_count_prefix(starts: Seq<usize>, offset: usize)
    requires
        forall|i: int, j: int| 0 <= i < j < starts.len() ==> starts[i] < starts[j],
        starts.len() >= 1 ==> starts.last() <= offset,
    ensures
        count_at_most(starts, offset) == starts.len(),
    decreases starts.len(),
{
    if starts.len() > 1 {
        let prefix = starts.drop_last();
        assert forall|i: int, j: int| 0 <= i < j < prefix.len() implies prefix[i] < prefix[j] by {
            assert(prefix[i] == starts[i] && prefix[j] == starts[j]);
        }
        assert(prefix.last() < starts.last());
        lemma_count_prefix(prefix, offset);
        assert(count_at_most(starts, offset) == count_at_most(prefix, offset) + 1);
    } else if starts.len() == 1 {
        assert(count_at_most(starts.drop_last(), offset) == 0);
        assert(count_at_most(starts, offset) == count_at_most(starts.drop_last(), offset) + 1);
    }
}

/// All source files of a compilation.
pub struct SourceText {
    files: Vec<SourceTextFile>,
}

impl SourceText {
    pub closed spec fn files(&self) -> Seq<SourceTextFile> {
        self.files@
    }

    /// Every file is well formed.
    pub open spec fn wf(&self) -> bool {
        forall|i: int| 0 <= i < self.files().len() ==> (#[trigger] self.files()[i]).wf()
    }

    /// Whether `location` names a file and lies in its text.
    pub open spec fn contains(&self, location: Location) -> bool {
        &&& location.file.0 < self.files().len()
        &&& location.span.spec_end() <= self.files()[location.file.0 as int].text().len()
    }

    pub fn empty() -> (r: SourceText)
        ensures
            r.files().len() == 0,
            r.wf(),
    {
        SourceText { files: Vec::new() }
    }

    /// Adds a file with the given name and text.
    pub fn add(&mut self, file_name: String, content: String) -> (r: SourceTextId)
        requires
            old(self).wf(),
            content@.len() + 2 <= usize::MAX,
        ensures
            final(self).wf(),
            r.0 == old(self).files().len(),
            final(self).files().len() == old(self).files().len() + 1,
            forall|i: int| 0 <= i < old(self).files().len() ==> final(self).files()[i] == old(
                self,
            ).files()[i],
            final(self).files()[r.0 as int].name() == file_name@,
            final(self).files()[r.0 as int].text() == content@,
    {
        let id = SourceTextId(self.files.len());
        self.files.push(SourceTextFile::from_string(file_name, content));
        id
    }

    /// The file `id`.
    pub fn file(&self, id: SourceTextId) -> (r: &SourceTextFile)
        requires
            id.0 < self.files().len(),
        ensures
            *r == self.files()[id.0 as int],
    {
        &self.files[id.0]
    }

    /// The name of the file of `location`.
    pub fn file_name(&self, location: Location) -> (r: &str)
        requires
            location.file.0 < self.files().len(),
        ensures
            r@ == self.files()[location.file.0 as int].name(),
    {
        self.files[location.file.0].file_name()
    }

    /// The 1-based line on which `location` starts.
    pub fn line_number(&self, location: Location) -> (r: usize)
        requires
            location.file.0 < self.files().len(),
        ensures
            r == count_at_most(self.files()[location.file.0 as int].starts(), location.span.start),
    {
        self.files[location.file.0].line_number(location.span.start)
    }

    /// The column at which `location` starts.
    pub fn column(&self, location: Location) -> (r: usize)
        requires
            self.wf(),
            location.file.0 < self.files().len(),
        ensures
            ({
                let f = self.files()[location.file.0 as int];
                r == location.span.start - f.starts()[count_at_most(f.starts(), location.span.start)
                    - 1]
            }),
    {
        assert(self.files()[location.file.0 as int].wf());
        self.files[location.file.0].column(location.span.start)
    }

    /// The text at `location`.
    pub fn text(&self, location: Location) -> (r: String)
        requires
            self.wf(),
            self.contains(location),
        ensures
            r@ == self.files()[location.file.0 as int].text().subrange(
                location.span.start as int,
                location.span.spec_end(),
            ),
    {
        assert(self.files()[location.file.0 as int].wf());
        self.files[location.file.0].slice(location.span)
    }
}

/// The smallest start among the first `n` locations.
pub open spec fn min_start(locations: Seq<Location>, n: nat) -> int
    decreases n,
{
    if n <= 1 {
        locations[0].span.start as int
    } else {
        let rest = min_start(locations, (n - 1) as nat);
        let here = locations[n - 1].span.start as int;
        if here < rest {
            here
        } else {
            rest
        }
    }
}

/// The largest end among the first `n` locations.
pub open spec fn max_end(locations: Seq<Location>, n: nat) -> int
    decreases n,
{
    if n <= 1 {
        locations[0].span.spec_end()
    } else {
        let rest = max_end(locations, (n - 1) as nat);
        let here = locations[n - 1].span.spec_end();
        if here > rest {
            here
        } else {
            rest
        }
    }
}

/// The locations of the items.
pub open spec fn locations_of<L: HasLocation>(items: Seq<L>) -> Seq<Location> {
    items.map_values(|l: L| l.spec_location())
}

impl Location {
    /// The location that covers all of the items; none for no items. The
    /// items must lie in one file.
    pub fn from_vec<L: HasLocation>(items: &[L]) -> (r: Option<Location>)
        requires
            forall|i: int|
                0 <= i < items@.len() ==> (#[trigger] items@[i]).spec_location().file == items@[0].spec_location().file
                    && items@[i].spec_location().span.spec_end() <= usize::MAX,
        ensures
            items@.len() == 0 ==> r is None,
            items@.len() > 0 ==> (r matches Some(l) && l.file == items@[0].spec_location().file && l.span.start
                == min_start(locations_of(items@), items@.len()) && l.span.spec_end() == max_end(
                locations_of(items@),
                items@.len(),
            )),
    {
        if items.len() == 0 {
            return None;
        }
        let ghost locations = locations_of(items@);
        let mut result = items[0].location();
        let mut i: usize = 0;
        while i < items.len()
            invariant
                items@.len() > 0,
                locations == locations_of(items@),
                i <= items@.len(),
                forall|k: int|
                    0 <= k < items@.len() ==> (#[trigger] items@[k]).spec_location().file == items@[0].spec_location().file
                        && items@[k].spec_location().span.spec_end() <= usize::MAX,
                result.file == items@[0].spec_location().file,
                result.span.spec_end() <= usize::MAX,
                result.span.start == min_start(locations, if i == 0 { 1 } else { i as nat }),
                result.span.spec_end() == max_end(locations, if i == 0 { 1 } else { i as nat }),
            decreases items@.len() - i,
        {
            let here = items[i].location();
            assert(locations[i as int] == here);
            result = result.combine(Some(here));
            i = i + 1;
        }
        Some(result)
    }
}

} // verus!
