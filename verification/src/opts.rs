//! The help text of a program's command-line options.
//!
//! A `Help` lists what a program says of itself and of each option. Its text
//! has one paragraph for the overview, one for the usage, and then one entry
//! per option: the names in a column on the left, the description in a column
//! that starts at `DESC_OFFSET`.

use vstd::prelude::*;
use vstd::std_specs::iter::IteratorSpec;
use vstd::string::{StringExecFns, StringSliceAdditionalSpecFns};
use vstd::utf8::encode_utf8;

verus! {

/// The column at which the descriptions start.
pub const DESC_OFFSET: usize = 30;

/// The column at which the option names start.
pub const OPT_OFFSET: usize = 2;

/// What the help says of one option.
pub struct OptionHelp {
    /// The names under which the option can be given.
    pub names: Vec<String>,
    /// What the option does; it may run over several lines.
    pub desc: Option<String>,
    /// What the value of the option looks like, where it takes one.
    pub value_desc: Option<String>,
}

/// What a program says of itself and of its options.
pub struct Help {
    pub overview: Option<String>,
    pub usage: Option<String>,
    /// The characters that may part an option from its value. The first of
    /// them is shown in the help.
    pub delimeters: Option<String>,
    pub options: Vec<OptionHelp>,
}

/// A set of options that can be read from a command line.
pub trait CmdLineOptions: Sized {
    /// What the options are.
    fn help() -> Help;

    /// Reads the options from `argv` and returns how many arguments were
    /// taken.
    fn parse<T, U>(&mut self, argv: T) -> Result<usize, String> where
        T: IntoIterator<Item = U>,
        U: AsRef<str>,
    ;
}

/// A way to read the value of an option from its text.
pub trait OptionValueParser<T> {
    fn parse(opt: &mut T, val: &str) -> Result<(), String>;
}

/// The character `c`, `n` times.
pub open spec fn repeated(c: char, n: nat) -> Seq<char> {
    Seq::new(n, |i: int| c)
}

/// The number of bytes that `text` takes in UTF-8.
pub open spec fn utf8_len(text: Seq<char>) -> nat {
    encode_utf8(text).len()
}

/// The character shown between an option and its value: the first of the
/// delimiters, or a space where there is none.
pub open spec fn shown_delimiter(delimeters: Option<String>) -> char {
    match delimeters {
        Some(d) => if d@.len() > 0 {
            d@[0]
        } else {
            ' '
        },
        None => ' ',
    }
}

/// One name of an option, followed by the delimiter and the value's
/// description where the option takes a value.
pub open spec fn name_text(name: Seq<char>, value_desc: Option<String>, delim: char) -> Seq<char> {
    match value_desc {
        Some(vd) => name + seq![delim] + vd@,
        None => name,
    }
}

/// The width that is counted for `name_text`: bytes of the name and of the
/// value's description, and one for the delimiter.
pub open spec fn name_width(name: Seq<char>, value_desc: Option<String>) -> nat {
    match value_desc {
        Some(vd) => utf8_len(name) + 1 + utf8_len(vd@),
        None => utf8_len(name),
    }
}

/// The names of an option, each as `name_text` has it, with `", "` between
/// them.
pub open spec fn names_text(names: Seq<String>, value_desc: Option<String>, delim: char) -> Seq<
    char,
>
    decreases names.len(),
{
    if names.len() == 0 {
        Seq::empty()
    } else if names.len() == 1 {
        name_text(names.last()@, value_desc, delim)
    } else {
        names_text(names.drop_last(), value_desc, delim) + ", "@ + name_text(
            names.last()@,
            value_desc,
            delim,
        )
    }
}

/// The width that is counted for `names_text`: that of each name, and two
/// for each `", "`.
pub open spec fn names_width(names: Seq<String>, value_desc: Option<String>) -> nat
    decreases names.len(),
{
    if names.len() == 0 {
        0
    } else if names.len() == 1 {
        name_width(names.last()@, value_desc)
    } else {
        names_width(names.drop_last(), value_desc) + 2 + name_width(names.last()@, value_desc)
    }
}

/// What follows the last line break of `text`; the whole of it where it has
/// none.
pub open spec fn last_line(text: Seq<char>) -> Seq<char>
    decreases text.len(),
{
    if text.len() == 0 || text.last() == '\n' {
        Seq::empty()
    } else {
        last_line(text.drop_last()).push(text.last())
    }
}

/// The lines of `text` that a line break ends, in order, without the empty
/// ones.
pub open spec fn ended_lines(text: Seq<char>) -> Seq<Seq<char>>
    decreases text.len(),
{
    if text.len() == 0 {
        Seq::empty()
    } else if text.last() == '\n' && last_line(text.drop_last()).len() > 0 {
        ended_lines(text.drop_last()).push(last_line(text.drop_last()))
    } else {
        ended_lines(text.drop_last())
    }
}

/// The lines of `text`, in order, without the empty ones.
pub open spec fn nonempty_lines(text: Seq<char>) -> Seq<Seq<char>> {
    if last_line(text).len() > 0 {
        ended_lines(text).push(last_line(text))
    } else {
        ended_lines(text)
    }
}

/// What stands before line number `no` of a description, where the names
/// took `written` columns. The first line goes on after the names where they
/// end before the description column; every other line starts anew.
pub open spec fn line_lead(no: nat, written: int) -> Seq<char> {
    if no == 0 && written < DESC_OFFSET {
        repeated(' ', (DESC_OFFSET - written) as nat)
    } else {
        "\n"@ + repeated(' ', DESC_OFFSET as nat)
    }
}

/// The description column: each line after its lead.
pub open spec fn desc_text(lines: Seq<Seq<char>>, written: int) -> Seq<char>
    decreases lines.len(),
{
    if lines.len() == 0 {
        Seq::empty()
    } else {
        desc_text(lines.drop_last(), written) + line_lead((lines.len() - 1) as nat, written)
            + lines.last()
    }
}

/// The description of an option; none counts as empty.
pub open spec fn desc_of(opt: OptionHelp) -> Seq<char> {
    match opt.desc {
        Some(d) => d@,
        None => Seq::empty(),
    }
}

/// The entry of one option: its names, its description, a line break.
pub open spec fn option_text(opt: OptionHelp, delim: char) -> Seq<char> {
    repeated(' ', OPT_OFFSET as nat) + names_text(opt.names@, opt.value_desc, delim) + desc_text(
        nonempty_lines(desc_of(opt)),
        OPT_OFFSET + names_width(opt.names@, opt.value_desc),
    ) + "\n"@
}

/// The entries of the options, one after the other.
pub open spec fn options_text(options: Seq<OptionHelp>, delim: char) -> Seq<char>
    decreases options.len(),
{
    if options.len() == 0 {
        Seq::empty()
    } else {
        options_text(options.drop_last(), delim) + option_text(options.last(), delim)
    }
}

/// The paragraph `<title><body>` with an empty line after it; nothing where
/// there is no body.
pub open spec fn paragraph(title: Seq<char>, body: Option<String>) -> Seq<char> {
    match body {
        Some(b) => title + b@ + "\n\n"@,
        None => Seq::empty(),
    }
}

/// The whole help text.
pub open spec fn help_text(help: Help) -> Seq<char> {
    let head = paragraph("Overview: "@, help.overview) + paragraph("Usage: "@, help.usage);
    if help.options@.len() == 0 {
        head
    } else {
        head + "Options:\n"@ + options_text(help.options@, shown_delimiter(help.delimeters))
    }
}

/// The number `n` as a `usize` holds it after additions that stop at the
/// largest value.
pub open spec fn saturated(n: nat) -> usize {
    if n > usize::MAX {
        usize::MAX
    } else {
        n as usize
    }
}

/// Appends `c` to `f`, `n` times.
fn write_n(f: &mut String, c: char, n: usize)
    ensures
        final(f)@ == old(f)@ + repeated(c, n as nat),
{
    let ghost start = f@;
    assert(repeated(c, 0) =~= Seq::<char>::empty());
    for i in 0..n
        invariant
            f@ == start + repeated(c, i as nat),
    {
        f.push(c);
        assert(repeated(c, (i + 1) as nat) =~= repeated(c, i as nat).push(c));
    }
}

/// Appends the names of `opt` to `f` and returns the width that they are
/// counted for.
fn write_names(f: &mut String, opt: &OptionHelp, delim: char) -> (names_len: usize)
    ensures
        final(f)@ == old(f)@ + names_text(opt.names@, opt.value_desc, delim),
        names_len == saturated(names_width(opt.names@, opt.value_desc)),
{
    let ghost start = f@;
    let mut names_len: usize = 0;
    let mut no: usize = 0;
    while no < opt.names.len()
        invariant
            no <= opt.names.len(),
            f@ == start + names_text(opt.names@.take(no as int), opt.value_desc, delim),
            names_len == saturated(names_width(opt.names@.take(no as int), opt.value_desc)),
        decreases opt.names.len() - no,
    {
        let name = opt.names[no].as_str();
        let ghost before = f@;
        if no > 0 {
            f.append(", ");
            names_len = names_len.saturating_add(2);
        }
        f.append(name);
        names_len = names_len.saturating_add(name.as_bytes().len());
        match &opt.value_desc {
            Some(vd) => {
                f.push(delim);
                f.append(vd.as_str());
                let value_len = vd.as_str().as_bytes().len();
                names_len = names_len.saturating_add(1).saturating_add(value_len);
            },
            None => {},
        }
        proof {
            let shorter = opt.names@.take(no as int);
            let longer = opt.names@.take(no + 1);
            assert(longer.drop_last() =~= shorter);
            assert(longer.last() == opt.names@[no as int]);
            let added = name_text(name@, opt.value_desc, delim);
            if no > 0 {
                assert(f@ =~= before + ", "@ + added);
            } else {
                assert(f@ =~= before + added);
                assert(names_text(shorter, opt.value_desc, delim) =~= Seq::<char>::empty());
            }
            assert(f@ =~= start + names_text(longer, opt.value_desc, delim));
        }
        no += 1;
    }
    proof {
        assert(opt.names@.take(no as int) =~= opt.names@);
    }
    names_len
}

/// Appends the entry of `opt` to `f`.
fn write_opt(f: &mut String, opt: &OptionHelp, delim: char)
    ensures
        final(f)@ == old(f)@ + option_text(*opt, delim),
{
    let ghost start = f@;
    write_n(f, ' ', OPT_OFFSET);
    let written = OPT_OFFSET.saturating_add(write_names(f, opt, delim));
    let ghost width: int = OPT_OFFSET + names_width(opt.names@, opt.value_desc);
    let ghost base = f@;
    match &opt.desc {
        Some(desc) => {
            let mut started = false;
            let mut in_line = false;
            for c in it: desc.as_str().chars()
                invariant
                    it.seq() == desc@,
                    written == saturated(width as nat),
                    width >= 0,
                    in_line == (last_line(desc@.take(it.index() as int)).len() > 0),
                    started == (nonempty_lines(desc@.take(it.index() as int)).len() > 0),
                    f@ == base + desc_text(nonempty_lines(desc@.take(it.index() as int)), width),
            {
                let ghost seen = desc@.take(it.index() as int);
                let ghost more = desc@.take(it.index() + 1);
                proof {
                    assert(more =~= seen.push(c));
                    assert(more.drop_last() =~= seen);
                }
                if c == '\n' {
                    in_line = false;
                } else {
                    let ghost lines = nonempty_lines(more);
                    if !in_line {
                        if !started && written < DESC_OFFSET {
                            write_n(f, ' ', DESC_OFFSET - written);
                        } else {
                            f.append("\n");
                            write_n(f, ' ', DESC_OFFSET);
                        }
                        in_line = true;
                        started = true;
                    }
                    f.push(c);
                    proof {
                        let earlier = nonempty_lines(seen);
                        let ended = ended_lines(seen);
                        assert(ended_lines(more) == ended);
                        assert(last_line(more) == last_line(seen).push(c));
                        assert(lines.drop_last() =~= ended);
                        assert(lines.last() == last_line(seen).push(c));
                        if last_line(seen).len() > 0 {
                            assert(earlier.drop_last() =~= ended);
                            assert(earlier.last() == last_line(seen));
                            assert(desc_text(earlier, width) == desc_text(ended, width)
                                + line_lead(ended.len(), width) + last_line(seen));
                        } else {
                            assert(last_line(seen) =~= Seq::<char>::empty());
                        }
                        assert(desc_text(lines, width) =~= desc_text(ended, width) + line_lead(
                            ended.len(),
                            width,
                        ) + last_line(seen).push(c));
                        assert(f@ =~= base + desc_text(lines, width));
                    }
                }
            }
            proof {
                assert(desc@.take(desc@.len() as int) =~= desc@);
            }
        },
        None => {
            assert(base =~= base + desc_text(nonempty_lines(desc_of(*opt)), width));
        },
    }
    f.append("\n");
    proof {
        assert(f@ =~= start + option_text(*opt, delim));
    }
}

/// The first character of `delimeters`, or a space where there is none.
fn first_or_space(delimeters: &Option<String>) -> (delim: char)
    ensures
        delim == shown_delimiter(*delimeters),
{
    match delimeters {
        Some(d) => {
            let mut chars = d.as_str().chars();
            match chars.next() {
                Some(c) => c,
                None => ' ',
            }
        },
        None => ' ',
    }
}

impl Help {
    /// Appends the help text to `f`.
    pub fn fmt(&self, f: &mut String)
        ensures
            final(f)@ == old(f)@ + help_text(*self),
    {
        let ghost start = f@;
        match &self.overview {
            Some(overview) => {
                f.append("Overview: ");
                f.append(overview.as_str());
                f.append("\n\n");
            },
            None => {},
        }
        match &self.usage {
            Some(usage) => {
                f.append("Usage: ");
                f.append(usage.as_str());
                f.append("\n\n");
            },
            None => {},
        }
        let ghost head = paragraph("Overview: "@, self.overview) + paragraph(
            "Usage: "@,
            self.usage,
        );
        assert(f@ =~= start + head);
        if self.options.len() == 0 {
            return ;
        }
        let delim = first_or_space(&self.delimeters);
        f.append("Options:\n");
        let ghost base = f@;
        let mut i: usize = 0;
        while i < self.options.len()
            invariant
                i <= self.options.len(),
                f@ == base + options_text(self.options@.take(i as int), delim),
            decreases self.options.len() - i,
        {
            write_opt(f, &self.options[i], delim);
            proof {
                let longer = self.options@.take(i + 1);
                assert(longer.drop_last() =~= self.options@.take(i as int));
                assert(f@ =~= base + options_text(longer, delim));
            }
            i += 1;
        }
        proof {
            assert(self.options@.take(i as int) =~= self.options@);
            assert(f@ =~= start + help_text(*self));
        }
    }

    /// The help text.
    pub fn to_string(&self) -> (res: String)
        ensures
            res@ == help_text(*self),
    {
        let mut f = String::new();
        self.fmt(&mut f);
        assert(f@ =~= help_text(*self));
        f
    }
}

} // verus!
