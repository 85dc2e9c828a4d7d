//! The label table: the first pass over the source, which binds each label
//! to the position of the instruction after it, promotes the labels that a
//! `.global` directive names, and collects the `.string` literals.
use vstd::prelude::*;
use vstd::hash_map::StringHashMap;
use crate::arm7::{one_message, result_view, unknown_label_message, Label};
use crate::error::{CompileErr, Diagnostics};
use crate::pattern::{find_all, is_match, regex_matches, regex_occurrences};
use crate::text::{
    chars_of, ends_with, find_from, find_index, lines, lowercase, push_text, split_lines,
    split_words, starts_with, texts, to_lowercase, trim, trimmed, words,
};

verus! {

/// A line without its comment and without the white space around it.
pub open spec fn preprocessed(line: Seq<char>) -> Seq<char> {
    trimmed(line.take(find_from(line, "//"@, 0)))
}

/// Removes the comment at the end of a line and the white space around it.
pub fn preprocess_line(line: &str) -> (r: &str)
    ensures
        r@ == preprocessed(line@),
{
    let cs = chars_of(line);
    let slashes = chars_of("//");
    let cut = find_index(&cs, &slashes, 0);
    trim(line.substring_char(0, cut))
}

/// The pattern of a line that is a label.
pub open spec fn label_line_pattern() -> Seq<char> {
    r"^[a-zA-Z_]+\w*\s*:$"@
}

/// The pattern of a `.global` directive, anywhere in a file.
pub open spec fn global_pattern() -> Seq<char> {
    r"\s*.global\s+\w+\s*"@
}

/// A text without the colons at its end.
pub open spec fn without_colons(s: Seq<char>) -> Seq<char>
    decreases s.len(),
{
    if s.len() > 0 && s.last() == ':' {
        without_colons(s.drop_last())
    } else {
        s
    }
}

/// Removes the colons at the end of a string.
pub fn strip_colons(s: &str) -> (r: &str)
    ensures
        r@ == without_colons(s@),
{
    let cs = chars_of(s);
    let mut n: usize = cs.len();
    assert(cs@.take(n as int) =~= cs@);
    while n > 0 && cs[n - 1] == ':'
        invariant
            n <= cs@.len(),
            without_colons(cs@.take(n as int)) == without_colons(cs@),
        decreases n,
    {
        assert(cs@.take(n as int).drop_last() =~= cs@.take(n - 1));
        n -= 1;
    }
    s.substring_char(0, n)
}

/// Whether the first pass counts a line as an instruction: it is not empty,
/// is no `IT` statement, no directive and no label.
pub open spec fn is_counted(line: Seq<char>) -> bool {
    let l = preprocessed(line);
    l.len() > 0 && !"it"@.is_prefix_of(lowercase(l)) && !"."@.is_prefix_of(l) && !":"@.is_suffix_of(
        l,
    )
}

/// The number of lines that the first pass counts as instructions.
pub open spec fn instruction_count(lines: Seq<Seq<char>>) -> nat
    decreases lines.len(),
{
    if lines.len() == 0 {
        0
    } else {
        instruction_count(lines.drop_last()) + (if is_counted(lines.last()) {
            1nat
        } else {
            0nat
        })
    }
}

pub open spec fn string_without_label_message() -> Seq<char> {
    ".string variable should have a label beforehand."@
}

pub open spec fn invalid_syntax_message() -> Seq<char> {
    "Invalid syntax."@
}

pub open spec fn invalid_label_line_message() -> Seq<char> {
    "Invalid label."@
}

/// What the first pass has found in the lines of a file that it has read.
pub struct Scan {
    /// The position of the next instruction.
    pub pc: nat,
    /// The labels of the file, each with the position of the instruction
    /// after it.
    pub labels: Map<Seq<char>, usize>,
    /// The label that was met last.
    pub last_label: Option<Seq<char>>,
    /// The string literals of the file.
    pub strings: Seq<Seq<char>>,
    /// The labels that stand before a string literal, each with the index
    /// of the literal among those of the file.
    pub string_labels: Seq<(Seq<char>, usize)>,
    /// The diagnostics.
    pub errors: Diagnostics,
}

impl Scan {
    /// Before the first line of a file.
    pub open spec fn start(pc: nat, errors: Diagnostics) -> Scan {
        Scan {
            pc,
            labels: Map::empty(),
            last_label: None,
            strings: Seq::empty(),
            string_labels: Seq::empty(),
            errors,
        }
    }

    /// After a `.string` directive: the text between the first quote and
    /// the last character of the line goes to the pool and the last label
    /// is bound to it.
    pub open spec fn with_string(self, l: Seq<char>) -> Scan {
        let quote = find_from(l, "\""@, 0);
        if quote + 1 < l.len() {
            let literal = l.subrange(quote + 1, l.len() - 1);
            let grown = Scan { strings: self.strings.push(literal), ..self };
            match self.last_label {
                Some(label) => Scan {
                    string_labels: self.string_labels.push((label, self.strings.len() as usize)),
                    ..grown
                },
                None => Scan {
                    errors: self.errors.with_message(string_without_label_message()),
                    ..grown
                },
            }
        } else {
            Scan { errors: self.errors.with_message(invalid_syntax_message()), ..self }
        }
    }

    /// After one more line, whose index in the file, counted from zero, is
    /// `index`.
    pub open spec fn with_line(self, index: nat, raw: Seq<char>) -> Scan {
        let l = preprocessed(raw);
        let at = Scan { errors: Diagnostics { line_number: index + 1, ..self.errors }, ..self };
        let read = if ".string"@.is_prefix_of(l) {
            at.with_string(l)
        } else {
            at
        };
        if l.len() == 0 || "it"@.is_prefix_of(lowercase(l)) || "."@.is_prefix_of(l) {
            read
        } else if ":"@.is_suffix_of(l) {
            if regex_matches(label_line_pattern(), l) {
                Scan {
                    labels: read.labels.insert(without_colons(l), read.pc as usize),
                    last_label: Some(without_colons(l)),
                    ..read
                }
            } else {
                Scan { errors: read.errors.with_message(invalid_label_line_message()), ..read }
            }
        } else {
            Scan { pc: read.pc + 1, ..read }
        }
    }
}

/// What the first pass finds in the lines of a file.
pub open spec fn scan(lines: Seq<Seq<char>>, start: Scan) -> Scan
    decreases lines.len(),
{
    if lines.len() == 0 {
        start
    } else {
        scan(lines.drop_last(), start).with_line((lines.len() - 1) as nat, lines.last())
    }
}

impl Scan {
    /// The labels point between `lo` and the position of the next
    /// instruction, and every string label names a literal that is there.
    pub open spec fn bounded(self, lo: nat) -> bool {
        &&& lo <= self.pc
        &&& forall|k: Seq<char>|
            self.labels.contains_key(k) ==> lo <= #[trigger] self.labels[k] <= self.pc
        &&& forall|i: int|
            0 <= i < self.string_labels.len() ==> (#[trigger] self.string_labels[i]).1
                < self.strings.len()
    }
}

/// One more line keeps the bounds, counts at most one instruction and adds at
/// most one literal.
pub proof fn lemma_with_line(prev: Scan, index: nat, raw: Seq<char>, lo: nat)
    requires
        prev.bounded(lo),
        prev.pc < usize::MAX,
        prev.strings.len() < usize::MAX,
    ensures
        prev.with_line(index, raw).bounded(lo),
        prev.with_line(index, raw).pc == prev.pc + (if is_counted(raw) {
            1nat
        } else {
            0nat
        }),
        prev.strings.len() <= prev.with_line(index, raw).strings.len() <= prev.strings.len() + 1,
        prev.with_line(index, raw).errors.errors.len() >= prev.errors.errors.len(),
        prev.with_line(index, raw).errors.current_file == prev.errors.current_file,
{
    let l = preprocessed(raw);
    let at = Scan { errors: Diagnostics { line_number: index + 1, ..prev.errors }, ..prev };
    let read = if ".string"@.is_prefix_of(l) {
        at.with_string(l)
    } else {
        at
    };
    assert(read.bounded(lo));
    assert(read.pc == prev.pc);
    let next = prev.with_line(index, raw);
    assert forall|k: Seq<char>| next.labels.contains_key(k) implies lo <= #[trigger] next.labels[k]
        <= next.pc by {
        if read.labels.contains_key(k) {
            assert(lo <= read.labels[k] <= read.pc);
        }
    }
}

/// The first pass counts the instructions of a file; every label that it
/// binds points between the first instruction of the file and the one after
/// its last; and every string label names a literal of the file.
pub proof fn lemma_scan_bounds(lines: Seq<Seq<char>>, pc: nat, errors: Diagnostics)
    requires
        pc + lines.len() <= usize::MAX,
    ensures
        scan(lines, Scan::start(pc, errors)).bounded(pc),
        scan(lines, Scan::start(pc, errors)).pc == pc + instruction_count(lines),
        scan(lines, Scan::start(pc, errors)).strings.len() <= lines.len(),
        scan(lines, Scan::start(pc, errors)).errors.errors.len() >= errors.errors.len(),
        scan(lines, Scan::start(pc, errors)).errors.current_file == errors.current_file,
        instruction_count(lines) <= lines.len(),
    decreases lines.len(),
{
    if lines.len() > 0 {
        lemma_scan_bounds(lines.drop_last(), pc, errors);
        lemma_with_line(
            scan(lines.drop_last(), Scan::start(pc, errors)),
            (lines.len() - 1) as nat,
            lines.last(),
            pc,
        );
    }
}

/// The labels of a list of bindings.
pub open spec fn bindings(v: Seq<(String, usize)>) -> Seq<(Seq<char>, usize)> {
    Seq::new(v.len(), |i: int| (v[i].0@, v[i].1))
}

/// The first pass at work on one file.
struct Scanner {
    pc: usize,
    labels: StringHashMap<usize>,
    last_label: Option<String>,
    strings: Vec<String>,
    string_labels: Vec<(String, usize)>,
}

impl Scanner {
    /// What the scanner has found, with the diagnostics beside it.
    spec fn found(&self, errors: Diagnostics) -> Scan {
        Scan {
            pc: self.pc as nat,
            labels: self.labels@,
            last_label: match self.last_label {
                Some(l) => Some(l@),
                None => None,
            },
            strings: texts(self.strings@),
            string_labels: bindings(self.string_labels@),
            errors,
        }
    }

    fn new(pc: usize) -> (r: Self)
        ensures
            forall|errors: Diagnostics| #[trigger] r.found(errors) == Scan::start(pc as nat, errors),
    {
        let r = Scanner {
            pc,
            labels: StringHashMap::new(),
            last_label: None,
            strings: Vec::new(),
            string_labels: Vec::new(),
        };
        assert(texts(r.strings@) =~= Seq::<Seq<char>>::empty());
        assert(bindings(r.string_labels@) =~= Seq::<(Seq<char>, usize)>::empty());
        r
    }

    /// Reads a `.string` directive.
    fn read_string(&mut self, line: &str, errors: &mut CompileErr)
        ensures
            final(self).found(final(errors)@) == old(self).found(old(errors)@).with_string(line@),
    {
        let cs = chars_of(line);
        let quote_mark = chars_of("\"");
        let quote = find_index(&cs, &quote_mark, 0);
        if quote < cs.len() && quote + 1 < cs.len() {
            let literal = line.substring_char(quote + 1, cs.len() - 1);
            let index = self.strings.len();
            push_text(&mut self.strings, literal.to_owned());
            match &self.last_label {
                Some(label) => {
                    let ghost before = bindings(self.string_labels@);
                    let name = label.clone();
                    self.string_labels.push((name, index));
                    assert(bindings(self.string_labels@) =~= before.push((label@, index)));
                },
                None => {
                    errors.push_message(".string variable should have a label beforehand.");
                },
            }
        } else {
            errors.push_message("Invalid syntax.");
        }
    }

    /// Reads one line, whose index in the file is `index`.
    fn read_line(&mut self, index: usize, raw: &str, errors: &mut CompileErr)
        requires
            index < usize::MAX,
            old(self).found(old(errors)@).pc < usize::MAX,
        ensures
            final(self).found(final(errors)@) == old(self).found(old(errors)@).with_line(
                index as nat,
                raw@,
            ),
    {
        errors.update_line_number(index);
        let line = preprocess_line(raw);
        if starts_with(line, ".string") {
            self.read_string(line, errors);
        }
        let lower = to_lowercase(line);
        if line.unicode_len() == 0 || starts_with(lower.as_str(), "it") || starts_with(line, ".") {
        } else if ends_with(line, ":") {
            if is_match(r"^[a-zA-Z_]+\w*\s*:$", line) {
                let label = strip_colons(line);
                self.labels.insert(label.to_owned(), self.pc);
                self.last_label = Some(label.to_owned());
            } else {
                errors.push_message("Invalid label.");
            }
        } else {
            self.pc = self.pc + 1;
        }
    }
}

/// What a `Labels` holds: the labels that every file sees, and those of the
/// file that was read last.
pub struct LabelTable {
    pub global: Map<Seq<char>, usize>,
    pub local: Map<Seq<char>, usize>,
}

impl LabelTable {
    /// What a name stands for: the global label of that name, else the
    /// local one, else the predefined subroutine.
    pub open spec fn lookup(self, name: Seq<char>) -> Option<Label> {
        if self.global.contains_key(name) {
            Some(Label::Index(self.global[name]))
        } else if self.local.contains_key(name) {
            Some(Label::Index(self.local[name]))
        } else {
            Label::predefined(name)
        }
    }

    /// Every label points at most at `limit`.
    pub open spec fn within(self, limit: nat) -> bool {
        &&& forall|k: Seq<char>| self.global.contains_key(k) ==> #[trigger] self.global[k] <= limit
        &&& forall|k: Seq<char>| self.local.contains_key(k) ==> #[trigger] self.local[k] <= limit
    }
}

/// All labels, and the logic to look them up.
pub struct Labels {
    global_labels: StringHashMap<usize>,
    local_labels: StringHashMap<usize>,
}

impl View for Labels {
    type V = LabelTable;

    closed spec fn view(&self) -> LabelTable {
        LabelTable { global: self.global_labels@, local: self.local_labels@ }
    }
}

pub open spec fn undefined_global_message(label: Seq<char>, file_name: Seq<char>) -> Seq<char> {
    "Global label \""@ + label + "\" is not defined in the file \""@ + file_name + "\"."@
}

pub open spec fn duplicate_global_message(label: Seq<char>, file_name: Seq<char>) -> Seq<char> {
    "Global label \""@ + label
        + "\" was already defined, attempting to overwrite global label in file \""@ + file_name
        + "\"."@
}

pub open spec fn invalid_global_message() -> Seq<char> {
    "Invalid global directive."@
}

/// What one `.global` directive does to the global labels: the label that
/// it names, the second word of the directive, is promoted from the local
/// labels; an error if the file does not define it or if it is global
/// already.
pub open spec fn promoted(table: LabelTable, directive: Seq<char>, file_name: Seq<char>) -> Result<
    LabelTable,
    Seq<char>,
> {
    let ws = words(preprocessed(directive));
    if ws.len() < 2 {
        Err(invalid_global_message())
    } else if !table.local.contains_key(ws[1]) {
        Err(undefined_global_message(ws[1], file_name))
    } else if table.global.contains_key(ws[1]) {
        Err(duplicate_global_message(ws[1], file_name))
    } else {
        Ok(LabelTable { global: table.global.insert(ws[1], table.local[ws[1]]), ..table })
    }
}

/// What a list of `.global` directives does, one after the other; the first
/// error ends it.
pub open spec fn promoted_all(
    table: LabelTable,
    directives: Seq<Seq<char>>,
    file_name: Seq<char>,
) -> Result<LabelTable, Seq<char>>
    decreases directives.len(),
{
    if directives.len() == 0 {
        Ok(table)
    } else {
        match promoted_all(table, directives.drop_last(), file_name) {
            Err(e) => Err(e),
            Ok(t) => promoted(t, directives.last(), file_name),
        }
    }
}

/// Promotion keeps the local labels and every bound on the labels.
pub proof fn lemma_promoted_all(
    table: LabelTable,
    directives: Seq<Seq<char>>,
    file_name: Seq<char>,
    limit: nat,
)
    requires
        table.within(limit),
    ensures
        promoted_all(table, directives, file_name) matches Ok(t) ==> t.within(limit) && t.local
            == table.local,
    decreases directives.len(),
{
    if directives.len() > 0 {
        lemma_promoted_all(table, directives.drop_last(), file_name, limit);
    }
}

impl Labels {
    pub fn new() -> (r: Self)
        ensures
            r@ == (LabelTable { global: Map::empty(), local: Map::empty() }),
    {
        Self { global_labels: StringHashMap::new(), local_labels: StringHashMap::new() }
    }

    /// Forgets the local labels.
    pub fn clear_local(&mut self)
        ensures
            final(self)@ == (LabelTable { local: Map::empty(), ..old(self)@ }),
    {
        self.local_labels.clear();
    }

    /// Promotes the label that one `.global` directive names.
    pub fn promote_global(&mut self, directive: &str, file_name: &str) -> (r: Result<(), String>)
        ensures
            match promoted(old(self)@, directive@, file_name@) {
                Ok(t) => r is Ok && final(self)@ == t,
                Err(e) => r matches Err(m) && m@ == e && final(self)@ == old(self)@,
            },
    {
        let line = preprocess_line(directive);
        let ws = split_words(line);
        if ws.len() < 2 {
            return Err(String::from_str("Invalid global directive."));
        }
        assert(texts(ws@)[1] == ws@[1]@);
        let name = ws[1].as_str();
        let value = match self.local_labels.get(name) {
            None => {
                return Err(
                    String::from_str("Global label \"").concat(name).concat(
                        "\" is not defined in the file \"",
                    ).concat(file_name).concat("\"."),
                );
            },
            Some(index) => *index,
        };
        if self.global_labels.contains_key(name) {
            return Err(
                String::from_str("Global label \"").concat(name).concat(
                    "\" was already defined, attempting to overwrite global label in file \"",
                ).concat(file_name).concat("\"."),
            );
        }
        self.global_labels.insert(ws[1].clone(), value);
        Ok(())
    }

    /// Promotes the labels that a list of `.global` directives names.
    pub fn promote_globals(&mut self, directives: &Vec<String>, file_name: &str) -> (r: Result<
        (),
        Vec<String>,
    >)
        ensures
            match promoted_all(old(self)@, texts(directives@), file_name@) {
                Ok(t) => r is Ok && final(self)@ == t,
                Err(e) => r matches Err(m) && texts(m@) == one_message(e),
            },
    {
        let ghost all = texts(directives@);
        let ghost start = self@;
        let mut i: usize = 0;
        assert(all.take(0) =~= Seq::<Seq<char>>::empty());
        while i < directives.len()
            invariant
                i <= directives@.len(),
                all == texts(directives@),
                start == old(self)@,
                promoted_all(start, all.take(i as int), file_name@) == Ok::<LabelTable, Seq<char>>(
                    self@,
                ),
            decreases directives@.len() - i,
        {
            assert(all.take(i + 1).drop_last() =~= all.take(i as int));
            assert(all.take(i + 1).last() == directives@[i as int]@);
            match self.promote_global(directives[i].as_str(), file_name) {
                Err(m) => {
                    proof {
                        lemma_promoted_error_stays(start, all, file_name@, i + 1);
                    }
                    return Err(CompileErr::message(m));
                },
                Ok(()) => {},
            }
            i += 1;
        }
        assert(all.take(directives@.len() as int) =~= all);
        Ok(())
    }

    /// Scans the lines of a file: binds each label to the position of the
    /// instruction after it, counts the instructions in `pc`, and returns
    /// the string literals of the file with the labels that name them. The
    /// local labels of the file replace those of the file read before.
    pub fn get_local_labels(
        &mut self,
        file_content: &String,
        pc: &mut usize,
        errors: &mut CompileErr,
    ) -> (r: (Vec<String>, Vec<(String, usize)>))
        requires
            *old(pc) + lines(file_content@).len() <= usize::MAX,
        ensures
            ({
                let found = scan(lines(file_content@), Scan::start(*old(pc) as nat, old(errors)@));
                &&& *final(pc) == found.pc
                &&& final(self)@ == (LabelTable { local: found.labels, ..old(self)@ })
                &&& final(errors)@ == found.errors
                &&& texts(r.0@) == found.strings
                &&& bindings(r.1@) == found.string_labels
            }),
    {
        let mut scanner = Scanner::new(*pc);
        let all = split_lines(file_content.as_str());
        let ghost start = Scan::start(*old(pc) as nat, old(errors)@);
        let ghost source = texts(all@);
        let mut i: usize = 0;
        assert(source.take(0) =~= Seq::<Seq<char>>::empty());
        while i < all.len()
            invariant
                i <= all@.len(),
                source == texts(all@),
                start.pc + source.len() <= usize::MAX,
                start == Scan::start(start.pc, start.errors),
                scanner.found(errors@) == scan(source.take(i as int), start),
            decreases all@.len() - i,
        {
            assert(source.take(i + 1).drop_last() =~= source.take(i as int));
            assert(source.take(i + 1).last() == all@[i as int]@);
            proof {
                lemma_scan_bounds(source.take(i as int), start.pc, start.errors);
            }
            scanner.read_line(i, all[i].as_str(), errors);
            i += 1;
        }
        assert(source.take(all@.len() as int) =~= source);
        *pc = scanner.pc;
        self.local_labels = scanner.labels;
        (scanner.strings, scanner.string_labels)
    }

    /// What a label of a branch stands for: a global label, else a local
    /// one, else a predefined subroutine.
    pub fn get(&self, label: &str) -> (r: Result<Label, Vec<String>>)
        ensures
            result_view(r) == (match self@.lookup(label@) {
                Some(l) => Ok::<Label, Seq<Seq<char>>>(l),
                None => Err(one_message(unknown_label_message(label@))),
            }),
    {
        match self.global_labels.get(label) {
            Some(index) => Ok(Label::Index(*index)),
            None => match self.local_labels.get(label) {
                Some(index) => Ok(Label::Index(*index)),
                None => Label::from_str(label),
            },
        }
    }
}

/// Once a directive has failed, the whole list fails with the same error.
pub proof fn lemma_promoted_error_stays(
    table: LabelTable,
    directives: Seq<Seq<char>>,
    file_name: Seq<char>,
    n: int,
)
    requires
        0 <= n <= directives.len(),
        promoted_all(table, directives.take(n), file_name) is Err,
    ensures
        promoted_all(table, directives, file_name) == promoted_all(
            table,
            directives.take(n),
            file_name,
        ),
    decreases directives.len() - n,
{
    if n == directives.len() {
        assert(directives.take(n) =~= directives);
    } else {
        assert(directives.drop_last().take(n) =~= directives.take(n));
        lemma_promoted_error_stays(table, directives.drop_last(), file_name, n);
    }
}

/// The name and the text of each source file of a list.
pub open spec fn sources_view(files: Seq<(String, String)>) -> Seq<(Seq<char>, Seq<char>)> {
    Seq::new(files.len(), |i: int| (files[i].0@, files[i].1@))
}

pub open spec fn too_large_message() -> Seq<char> {
    "The program is too large."@
}

/// The diagnostics at the start of a file of the first pass.
pub open spec fn fresh_diagnostics(file_name: Seq<char>) -> Diagnostics {
    Diagnostics { errors: Seq::empty(), line_number: 1, current_file: file_name }
}

/// The number of instructions of a list of files.
pub open spec fn total_instructions(files: Seq<(Seq<char>, Seq<char>)>) -> nat
    decreases files.len(),
{
    if files.len() == 0 {
        0
    } else {
        total_instructions(files.drop_last()) + instruction_count(lines(files.last().1))
    }
}

/// Whether a position is too far for one more file of this many lines.
pub open spec fn overflows(pc: nat, content: Seq<char>) -> bool {
    pc + lines(content).len() > usize::MAX
}

/// The first pass over all files: the label table after the last file, with
/// the labels that the `.global` directives of each file promote, and the
/// number of instructions; or the first error of a `.global` directive.
pub open spec fn first_pass(files: Seq<(Seq<char>, Seq<char>)>) -> Result<
    (LabelTable, nat),
    Seq<char>,
>
    decreases files.len(),
{
    if files.len() == 0 {
        Ok((LabelTable { global: Map::empty(), local: Map::empty() }, 0))
    } else {
        match first_pass(files.drop_last()) {
            Err(e) => Err(e),
            Ok((table, pc)) => {
                let name = files.last().0;
                let content = files.last().1;
                if overflows(pc, content) {
                    Err(too_large_message())
                } else {
                    let found = scan(lines(content), Scan::start(pc, fresh_diagnostics(name)));
                    match promoted_all(
                        LabelTable { local: found.labels, ..table },
                        regex_occurrences(global_pattern(), content),
                        name,
                    ) {
                        Err(e) => Err(e),
                        Ok(t) => Ok((t, found.pc)),
                    }
                }
            },
        }
    }
}

/// After a first pass that succeeds, the position is the number of
/// instructions of the files and every label points at most there.
pub proof fn lemma_first_pass(files: Seq<(Seq<char>, Seq<char>)>)
    ensures
        first_pass(files) matches Ok((table, pc)) ==> pc == total_instructions(files)
            && table.within(pc) && pc <= usize::MAX,
        first_pass(files) is Ok && files.len() > 0 ==> first_pass(files.drop_last()) is Ok
            && !overflows(total_instructions(files.drop_last()), files.last().1),
    decreases files.len(),
{
    if files.len() > 0 {
        lemma_first_pass(files.drop_last());
        match first_pass(files.drop_last()) {
            Err(e) => {},
            Ok((table, pc)) => {
                let name = files.last().0;
                let content = files.last().1;
                if !overflows(pc, content) {
                    lemma_scan_bounds(lines(content), pc, fresh_diagnostics(name));
                    let found = scan(lines(content), Scan::start(pc, fresh_diagnostics(name)));
                    let local = LabelTable { local: found.labels, ..table };
                    assert(local.within(found.pc));
                    lemma_promoted_all(
                        local,
                        regex_occurrences(global_pattern(), content),
                        name,
                        found.pc,
                    );
                }
            },
        }
    }
}

/// A first pass that succeeds on a list of files succeeds on every list of
/// its first files, and the instructions of the first files are among those
/// of all.
pub proof fn lemma_first_pass_prefix(files: Seq<(Seq<char>, Seq<char>)>, k: int)
    requires
        0 <= k <= files.len(),
    ensures
        first_pass(files) is Ok ==> first_pass(files.take(k)) is Ok,
        total_instructions(files.take(k)) <= total_instructions(files),
    decreases files.len() - k,
{
    if k == files.len() {
        assert(files.take(k) =~= files);
    } else {
        assert(files.drop_last().take(k) =~= files.take(k));
        lemma_first_pass_prefix(files.drop_last(), k);
    }
}

/// The number of lines of a text.
pub fn line_count(content: &str) -> (n: usize)
    ensures
        n == lines(content@).len(),
{
    let all = split_lines(content);
    assert(texts(all@).len() == all@.len());
    all.len()
}

impl Labels {
    /// The first pass over all files: the labels that the `.global`
    /// directives promote. The local labels are forgotten at the end.
    pub fn get_global_labels(sources: &Vec<(String, String)>) -> (r: Result<Self, Vec<String>>)
        ensures
            match first_pass(sources_view(sources@)) {
                Ok((table, pc)) => r matches Ok(labels) && labels@ == (LabelTable {
                    local: Map::empty(),
                    ..table
                }),
                Err(e) => r matches Err(m) && texts(m@) == one_message(e),
            },
    {
        let mut labels = Labels::new();
        let mut pc: usize = 0;
        let ghost files = sources_view(sources@);
        let mut k: usize = 0;
        assert(files.take(0) =~= Seq::<(Seq<char>, Seq<char>)>::empty());
        while k < sources.len()
            invariant
                k <= sources@.len(),
                files == sources_view(sources@),
                first_pass(files.take(k as int)) == Ok::<(LabelTable, nat), Seq<char>>(
                    (labels@, pc as nat),
                ),
            decreases sources@.len() - k,
        {
            assert(files.take(k + 1).drop_last() =~= files.take(k as int));
            assert(files.take(k + 1).last() == (sources@[k as int].0@, sources@[k as int].1@));
            let file_name = &sources[k].0;
            let content = &sources[k].1;
            if line_count(content.as_str()) > usize::MAX - pc {
                proof {
                    lemma_first_pass_error_stays(files, k + 1);
                }
                return Err(CompileErr::message(String::from_str("The program is too large.")));
            }
            let mut errors = CompileErr::new();
            errors.update_current_file(file_name.clone());
            labels.get_local_labels(content, &mut pc, &mut errors);
            let directives = find_all(r"\s*.global\s+\w+\s*", content.as_str());
            assert(directives.deep_view() =~= texts(directives@));
            match labels.promote_globals(&directives, file_name.as_str()) {
                Err(e) => {
                    proof {
                        lemma_first_pass_error_stays(files, k + 1);
                    }
                    return Err(e);
                },
                Ok(()) => {},
            }
            k += 1;
        }
        assert(files.take(sources@.len() as int) =~= files);
        labels.clear_local();
        Ok(labels)
    }
}

/// Once the first pass has failed on the first files, it fails on all with
/// the same error.
pub proof fn lemma_first_pass_error_stays(files: Seq<(Seq<char>, Seq<char>)>, n: int)
    requires
        0 <= n <= files.len(),
        first_pass(files.take(n)) is Err,
    ensures
        first_pass(files) == first_pass(files.take(n)),
    decreases files.len() - n,
{
    if n == files.len() {
        assert(files.take(n) =~= files);
    } else {
        assert(files.drop_last().take(n) =~= files.take(n));
        lemma_first_pass_error_stays(files.drop_last(), n);
    }
}

} // verus!
