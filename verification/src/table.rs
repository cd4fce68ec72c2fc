//! The table of completion scripts, one per shell, and its text form: a
//! source file that holds each script as a list of byte literals.

use vstd::prelude::*;
use vstd::string::is_ascii;
use crate::encode::{encode_bytes, push_encoded};
use crate::shell::{all_shells, shell_at, Shell, SHELL_COUNT};

verus! {

/// The completion script of one shell.
#[derive(Debug, Clone)]
pub struct TableEntry {
    pub shell: Shell,
    pub script: Vec<u8>,
}

/// Completion scripts keyed by shell, in emission order.
#[derive(Debug, Clone)]
pub struct CompletionTable {
    pub entries: Vec<TableEntry>,
}

impl View for TableEntry {
    type V = (Shell, Seq<u8>);

    open spec fn view(&self) -> (Shell, Seq<u8>) {
        (self.shell, self.script@)
    }
}

impl View for CompletionTable {
    type V = Seq<(Shell, Seq<u8>)>;

    open spec fn view(&self) -> Seq<(Shell, Seq<u8>)> {
        Seq::new(self.entries@.len(), |i: int| self.entries@[i]@)
    }
}

/// Whether a table holds one entry for each supported shell, in emission
/// order.
pub open spec fn is_complete(table: Seq<(Shell, Seq<u8>)>) -> bool {
    &&& table.len() == SHELL_COUNT
    &&& forall|i: int| 0 <= i < table.len() ==> (#[trigger] table[i]).0 == shell_at(i)
}

/// The bytes of a text of ASCII characters.
pub open spec fn ascii(s: Seq<char>) -> Seq<u8> {
    Seq::new(s.len(), |i: int| s[i] as u8)
}

/// The directives at the head of the file.
pub open spec fn header() -> Seq<u8> {
    ascii("#include <string>\n"@) + ascii("#include <vector>\n"@) + ascii("#include <cstdint>\n"@)
        + ascii("#include <map>\n"@) + ascii("\n"@)
}

/// The identifier of a shell in double quotes.
pub open spec fn quoted(shell: Shell) -> Seq<u8> {
    ascii("\""@) + ascii(shell.label()) + ascii("\""@)
}

/// The quoted identifiers of the first `n` shells, with commas between.
pub open spec fn shell_list(n: nat) -> Seq<u8>
    decreases n,
{
    if n == 0 {
        Seq::empty()
    } else if n == 1 {
        quoted(shell_at(0))
    } else {
        shell_list((n - 1) as nat) + ascii(","@) + quoted(shell_at(n - 1))
    }
}

/// The line that lists every supported shell.
pub open spec fn define_line() -> Seq<u8> {
    ascii("#define SHELLS "@) + shell_list(SHELL_COUNT as nat) + ascii("\n"@)
}

/// The line that opens the mapping.
pub open spec fn map_open() -> Seq<u8> {
    ascii("const std::map<std::string, std::vector<std::uint8_t>> shell_complete = {\n"@)
}

/// What stands in front of the byte literals of an entry.
pub open spec fn entry_open(shell: Shell) -> Seq<u8> {
    ascii("{ \""@) + ascii(shell.label()) + ascii("\", {\n"@)
}

/// The line that closes an entry.
pub open spec fn entry_close() -> Seq<u8> {
    ascii("}},\n"@)
}

/// One entry of the mapping: the shell's identifier and its script as rows
/// of byte literals.
pub open spec fn entry_text(shell: Shell, script: Seq<u8>) -> Seq<u8> {
    entry_open(shell) + encode_bytes(script) + entry_close()
}

/// The first `n` entries of the mapping, in table order.
pub open spec fn entries_text(table: Seq<(Shell, Seq<u8>)>, n: nat) -> Seq<u8>
    decreases n,
{
    if n == 0 {
        Seq::empty()
    } else {
        entries_text(table, (n - 1) as nat) + entry_text(table[n - 1].0, table[n - 1].1)
    }
}

/// The line that closes the mapping.
pub open spec fn map_close() -> Seq<u8> {
    ascii("};\n"@)
}

/// The whole file for a table.
pub open spec fn source_text(table: Seq<(Shell, Seq<u8>)>) -> Seq<u8> {
    header() + define_line() + map_open() + entries_text(table, table.len()) + map_close()
}

/// Appends the bytes of an ASCII text.
fn push_text(out: &mut Vec<u8>, s: &str)
    requires
        is_ascii(s),
    ensures
        final(out)@ == old(out)@ + ascii(s@),
{
    broadcast use vstd::string::is_ascii_spec_bytes;

    let bytes = s.as_bytes();
    let ghost start = out@;
    let mut i: usize = 0;
    while i < bytes.len()
        invariant
            i <= bytes.len(),
            bytes@ == ascii(s@),
            out@ == start + ascii(s@).take(i as int),
        decreases bytes.len() - i,
    {
        out.push(bytes[i]);
        assert(out@ =~= start + ascii(s@).take(i + 1));
        i += 1;
    }
    assert(ascii(s@).take(i as int) =~= ascii(s@));
}

fn push_header(out: &mut Vec<u8>)
    ensures
        final(out)@ == old(out)@ + header(),
{
    proof {
        reveal_strlit("#include <string>\n");
        reveal_strlit("#include <vector>\n");
        reveal_strlit("#include <cstdint>\n");
        reveal_strlit("#include <map>\n");
        reveal_strlit("\n");
    }
    let ghost start = out@;
    push_text(out, "#include <string>\n");
    push_text(out, "#include <vector>\n");
    push_text(out, "#include <cstdint>\n");
    push_text(out, "#include <map>\n");
    push_text(out, "\n");
    assert(out@ =~= start + header());
}

fn push_quoted(out: &mut Vec<u8>, shell: Shell)
    ensures
        final(out)@ == old(out)@ + quoted(shell),
{
    proof {
        reveal_strlit("\"");
    }
    let ghost start = out@;
    push_text(out, "\"");
    push_text(out, shell.name());
    push_text(out, "\"");
    assert(out@ =~= start + quoted(shell));
}

fn push_define_line(out: &mut Vec<u8>)
    ensures
        final(out)@ == old(out)@ + define_line(),
{
    proof {
        reveal_strlit("#define SHELLS ");
        reveal_strlit(",");
        reveal_strlit("\n");
    }
    let ghost start = out@;
    push_text(out, "#define SHELLS ");
    let ghost listed = out@;
    let shells = Shell::all();
    let mut i: usize = 0;
    while i < shells.len()
        invariant
            i <= shells.len(),
            shells@ == all_shells(),
            is_ascii(","),
            out@ == listed + shell_list(i as nat),
        decreases shells.len() - i,
    {
        if i > 0 {
            push_text(out, ",");
        }
        push_quoted(out, shells[i]);
        assert(out@ =~= listed + shell_list((i + 1) as nat));
        i += 1;
    }
    push_text(out, "\n");
    assert(out@ =~= start + define_line());
}

fn push_entry(out: &mut Vec<u8>, shell: Shell, script: &[u8])
    ensures
        final(out)@ == old(out)@ + entry_text(shell, script@),
{
    proof {
        reveal_strlit("{ \"");
        reveal_strlit("\", {\n");
        reveal_strlit("}},\n");
    }
    let ghost start = out@;
    push_text(out, "{ \"");
    push_text(out, shell.name());
    push_text(out, "\", {\n");
    push_encoded(out, script);
    push_text(out, "}},\n");
    assert(out@ =~= start + entry_text(shell, script@));
}

impl CompletionTable {
    /// The whole file for the table: the directives, the list of supported
    /// shells, and the mapping with one entry per table entry, in table
    /// order.
    pub fn serialize(&self) -> (text: Vec<u8>)
        ensures
            text@ == source_text(self@),
    {
        proof {
            reveal_strlit(
                "const std::map<std::string, std::vector<std::uint8_t>> shell_complete = {\n",
            );
            reveal_strlit("};\n");
        }
        let mut text: Vec<u8> = Vec::new();
        push_header(&mut text);
        push_define_line(&mut text);
        push_text(
            &mut text,
            "const std::map<std::string, std::vector<std::uint8_t>> shell_complete = {\n",
        );
        let ghost opened = text@;
        assert(opened =~= header() + define_line() + map_open());
        let mut i: usize = 0;
        while i < self.entries.len()
            invariant
                i <= self.entries.len(),
                text@ == opened + entries_text(self@, i as nat),
            decreases self.entries.len() - i,
        {
            push_entry(&mut text, self.entries[i].shell, self.entries[i].script.as_slice());
            assert(self@[i as int] == self.entries@[i as int]@);
            assert(text@ =~= opened + entries_text(self@, (i + 1) as nat));
            i += 1;
        }
        push_text(&mut text, "};\n");
        assert(text@ =~= source_text(self@));
        text
    }
}

/// The line that lists the supported shells, written out.
pub proof fn define_line_written_out()
    ensures
        define_line() == ascii("#define SHELLS \"bash\",\"zsh\",\"fish\",\"powershell\",\"elvish\"\n"@),
{
    reveal_strlit("#define SHELLS \"bash\",\"zsh\",\"fish\",\"powershell\",\"elvish\"\n");
    reveal_strlit("#define SHELLS ");
    reveal_strlit("\"");
    reveal_strlit(",");
    reveal_strlit("\n");
    reveal_strlit("bash");
    reveal_strlit("zsh");
    reveal_strlit("fish");
    reveal_strlit("powershell");
    reveal_strlit("elvish");
    reveal_with_fuel(shell_list, 6);
    assert(define_line() =~= ascii(
        "#define SHELLS \"bash\",\"zsh\",\"fish\",\"powershell\",\"elvish\"\n"@,
    ));
}

/// Where the entry at position `i` begins in the file for a table.
pub open spec fn entry_offset(table: Seq<(Shell, Seq<u8>)>, i: nat) -> int {
    (header() + define_line() + map_open()).len() as int + entries_text(table, i).len() as int
}

/// The first `n` entries begin with the first `i` entries and the entry at
/// position `i`.
proof fn entries_begin_with(table: Seq<(Shell, Seq<u8>)>, n: nat, i: nat)
    requires
        i < n <= table.len(),
    ensures
        entries_text(table, n).len() >= entries_text(table, i).len() + entry_text(
            table[i as int].0,
            table[i as int].1,
        ).len(),
        entries_text(table, n).subrange(
            entries_text(table, i).len() as int,
            entries_text(table, i).len() as int + entry_text(
                table[i as int].0,
                table[i as int].1,
            ).len() as int,
        ) == entry_text(table[i as int].0, table[i as int].1),
    decreases n,
{
    let entry = entry_text(table[i as int].0, table[i as int].1);
    let start = entries_text(table, i).len() as int;
    if n == i + 1 {
        assert(entries_text(table, n).subrange(start, start + entry.len()) =~= entry);
    } else {
        entries_begin_with(table, (n - 1) as nat, i);
        let shorter = entries_text(table, (n - 1) as nat);
        assert(entries_text(table, n).subrange(start, start + entry.len()) =~= shorter.subrange(
            start,
            start + entry.len(),
        ));
    }
}

/// The file for a table holds the entry of each position, whole and
/// unchanged, at the offset of that position.
pub proof fn file_holds_each_entry(table: Seq<(Shell, Seq<u8>)>, i: nat)
    requires
        i < table.len(),
    ensures
        entry_offset(table, i) + entry_text(table[i as int].0, table[i as int].1).len()
            <= source_text(table).len(),
        source_text(table).subrange(
            entry_offset(table, i),
            entry_offset(table, i) + entry_text(table[i as int].0, table[i as int].1).len(),
        ) == entry_text(table[i as int].0, table[i as int].1),
{
    let entry = entry_text(table[i as int].0, table[i as int].1);
    let head = header() + define_line() + map_open();
    let all = entries_text(table, table.len());
    let start = entries_text(table, i).len() as int;
    entries_begin_with(table, table.len(), i);
    assert(source_text(table) =~= head + all + map_close());
    assert(source_text(table).subrange(head.len() + start, head.len() + start + entry.len())
        =~= all.subrange(start, start + entry.len()));
}

} // verus!
