use vstd::prelude::*;

verus! {

/// Command mapping record: which action a command of the tool runs.
#[derive(Debug, Clone)]
pub struct CommandMapping {
    /// Command name (e.g., "version", "help")
    pub command: String,
    /// Corresponding action (e.g., "show_version", "show_help")
    pub action: String,
    /// Description
    pub description: String,
    /// Whether enabled
    pub enabled: bool,
}

/// The mappings a new command store starts with, as (command, action,
/// description); each is enabled.
pub open spec fn default_mapping_texts() -> Seq<(Seq<char>, Seq<char>, Seq<char>)> {
    seq![
        ("version"@, "show_version"@, "Display version information"@),
        ("help"@, "show_help"@, "Display help information"@),
        ("sysinfo"@, "call_sysinfo_dll"@, "Display system information"@),
        ("status"@, "show_status"@, "Display framework status"@),
    ]
}

fn mapping(command: &str, action: &str, description: &str) -> (m: CommandMapping)
    ensures
        m.command@ == command@,
        m.action@ == action@,
        m.description@ == description@,
        m.enabled,
{
    CommandMapping {
        command: String::from_str(command),
        action: String::from_str(action),
        description: String::from_str(description),
        enabled: true,
    }
}

/// The mappings a new command store starts with.
pub fn default_command_mappings() -> (ms: Vec<CommandMapping>)
    ensures
        ms@.len() == default_mapping_texts().len(),
        forall|i: int|
            0 <= i < ms@.len() ==> {
                &&& (#[trigger] ms@[i]).command@ == default_mapping_texts()[i].0
                &&& ms@[i].action@ == default_mapping_texts()[i].1
                &&& ms@[i].description@ == default_mapping_texts()[i].2
                &&& ms@[i].enabled
            },
{
    let mut ms: Vec<CommandMapping> = Vec::new();
    ms.push(mapping("version", "show_version", "Display version information"));
    ms.push(mapping("help", "show_help", "Display help information"));
    ms.push(mapping("sysinfo", "call_sysinfo_dll", "Display system information"));
    ms.push(mapping("status", "show_status", "Display framework status"));
    ms
}

impl CommandMapping {
    /// A mapping read back from a stored row, whose `enabled` column holds an
    /// integer that is nonzero for an enabled command.
    pub fn from_row(command: String, action: String, description: String, enabled_flag: i32) -> (m:
        CommandMapping)
        ensures
            m.command == command,
            m.action == action,
            m.description == description,
            m.enabled == (enabled_flag != 0),
    {
        CommandMapping { command, action, description, enabled: enabled_flag != 0 }
    }

    /// The integer stored in the `enabled` column for this mapping.
    pub fn enabled_flag(&self) -> (flag: i32)
        ensures
            flag == (if self.enabled {
                1i32
            } else {
                0i32
            }),
    {
        if self.enabled {
            1
        } else {
            0
        }
    }
}

/// `s` padded on the right with spaces to `width` characters; unchanged when
/// it is at least that long.
pub open spec fn pad_right(s: Seq<char>, width: nat) -> Seq<char> {
    if s.len() < width {
        s + Seq::new((width - s.len()) as nat, |i: int| ' ')
    } else {
        s
    }
}

/// How the mapping table shows whether a command is enabled.
pub open spec fn yes_no(enabled: bool) -> Seq<char> {
    if enabled {
        "Yes"@
    } else {
        "No"@
    }
}

/// A line of the mapping table: the three texts padded to 20, 25 and 30
/// characters, then `last`, each followed by one space but the last.
pub open spec fn table_line(
    command: Seq<char>,
    action: Seq<char>,
    description: Seq<char>,
    last: Seq<char>,
) -> Seq<char> {
    pad_right(command, 20) + " "@ + pad_right(action, 25) + " "@ + pad_right(description, 30) + " "@
        + last
}

/// The table line of mapping `m`.
pub open spec fn mapping_line(m: CommandMapping) -> Seq<char> {
    table_line(m.command@, m.action@, m.description@, yes_no(m.enabled))
}

/// The title of the mapping table.
pub open spec fn table_title() -> Seq<char> {
    "=== Command Mappings ==="@
}

/// The heading line of the mapping table.
pub open spec fn table_heading() -> Seq<char> {
    table_line("Command"@, "Action"@, "Description"@, "Enabled"@)
}

/// The rule under the heading: 80 dashes.
pub open spec fn table_rule() -> Seq<char> {
    "--------------------------------------------------------------------------------"@
}

/// The lines that describe a mapping looked up under some command.
pub open spec fn detail_lines(m: CommandMapping) -> Seq<Seq<char>> {
    seq![
        "Command:     "@ + m.command@,
        "Action:      "@ + m.action@,
        "Description: "@ + m.description@,
        "Enabled:     "@ + yes_no(m.enabled),
    ]
}

/// The line for a lookup of `command` that found nothing.
pub open spec fn not_found_line(command: Seq<char>) -> Seq<char> {
    "Command '"@ + command + "' not found."@
}

/// Padding only adds spaces: the padded text begins with the whole of `s`,
/// is as long as the longer of `s` and `width`, and holds spaces after `s`.
pub proof fn lemma_pad_right(s: Seq<char>, width: nat)
    ensures
        pad_right(s, width).len() == if s.len() < width {
            width as int
        } else {
            s.len() as int
        },
        pad_right(s, width).subrange(0, s.len() as int) == s,
        forall|i: int| s.len() <= i < pad_right(s, width).len() ==> #[trigger] pad_right(s, width)[i]
            == ' ',
{
    assert(pad_right(s, width).subrange(0, s.len() as int) =~= s);
}

/// The columns of a table line: the command from the start, the action, the
/// description and `last` each begin where the column before ends, every
/// text appears whole whatever its length, a column is as wide as the
/// longer of its text and its width (20, 25, 30), and the rest of each
/// column, with the space after it, is spaces.
pub proof fn lemma_table_line_columns(
    command: Seq<char>,
    action: Seq<char>,
    description: Seq<char>,
    last: Seq<char>,
)
    ensures
        ({
            let line = table_line(command, action, description, last);
            let wc = if command.len() < 20 {
                20
            } else {
                command.len() as int
            };
            let wa = if action.len() < 25 {
                25
            } else {
                action.len() as int
            };
            let wd = if description.len() < 30 {
                30
            } else {
                description.len() as int
            };
            let sa = wc + 1;
            let sd = sa + wa + 1;
            let sl = sd + wd + 1;
            &&& line.len() == sl + last.len()
            &&& line.subrange(0, command.len() as int) == command
            &&& line.subrange(sa, sa + action.len()) == action
            &&& line.subrange(sd, sd + description.len()) == description
            &&& line.subrange(sl, sl + last.len()) == last
            &&& forall|i: int|
                (command.len() <= i < sa || sa + action.len() <= i < sd || sd + description.len() <= i
                    < sl) ==> #[trigger] line[i] == ' '
        }),
{
    reveal_strlit(" ");
    lemma_pad_right(command, 20);
    lemma_pad_right(action, 25);
    lemma_pad_right(description, 30);
    let pc = pad_right(command, 20);
    let pa = pad_right(action, 25);
    let pd = pad_right(description, 30);
    let sp = " "@;
    let line = table_line(command, action, description, last);
    assert(line == pc + sp + pa + sp + pd + sp + last);
    let sa: int = pc.len() as int + 1;
    let sd: int = sa + pa.len() + 1;
    let sl: int = sd + pd.len() + 1;
    assert(line.subrange(0, command.len() as int) =~= pc.subrange(0, command.len() as int));
    assert(line.subrange(sa, sa + action.len()) =~= pa.subrange(0, action.len() as int));
    assert(line.subrange(sd, sd + description.len()) =~= pd.subrange(0, description.len() as int));
    assert(line.subrange(sl, sl + last.len()) =~= last);
    assert forall|i: int|
        (command.len() <= i < sa || sa + action.len() <= i < sd || sd + description.len() <= i
            < sl) implies #[trigger] line[i] == ' ' by {
        if i < pc.len() {
            assert(line[i] == pc[i]);
        } else if i < sa {
        } else if i < sd - 1 {
            assert(line[i] == pa[i - sa]);
        } else if i < sd {
        } else if i < sl - 1 {
            assert(line[i] == pd[i - sd]);
        } else {
        }
    }
}

/// Appends `s` to `out`, padded on the right with spaces to `width`
/// characters.
fn append_padded(out: &mut String, s: &str, width: usize)
    ensures
        final(out)@ == old(out)@ + pad_right(s@, width as nat),
{
    let ghost before = out@;
    out.append(s);
    let n = s.unicode_len();
    let ghost start = out@;
    proof {
        reveal_strlit(" ");
    }
    let mut k: usize = n;
    while k < width
        invariant
            n == s@.len(),
            n <= k,
            n < width ==> k <= width,
            n >= width ==> k == n,
            start == before + s@,
            out@ == start + Seq::new((k - n) as nat, |i: int| ' '),
            " "@ == seq![' '],
        decreases width - k,
    {
        out.append(" ");
        k = k + 1;
        assert(out@ =~= start + Seq::new((k - n) as nat, |i: int| ' '));
    }
    let ghost spaces = Seq::new((k - n) as nat, |i: int| ' ');
    if n < width {
        assert(pad_right(s@, width as nat) =~= s@ + spaces);
    } else {
        assert(spaces =~= Seq::<char>::empty());
        assert(pad_right(s@, width as nat) == s@);
    }
    assert(out@ =~= before + pad_right(s@, width as nat));
}

/// Appends "Yes" or "No" for `enabled` to `out`.
fn append_yes_no(out: &mut String, enabled: bool)
    ensures
        final(out)@ == old(out)@ + yes_no(enabled),
{
    if enabled {
        out.append("Yes");
    } else {
        out.append("No");
    }
}

/// A table line of the three texts and `last`.
fn table_line_of(command: &str, action: &str, description: &str, last: &str) -> (line: String)
    ensures
        line@ == table_line(command@, action@, description@, last@),
{
    let mut line = String::new();
    append_padded(&mut line, command, 20);
    line.append(" ");
    append_padded(&mut line, action, 25);
    line.append(" ");
    append_padded(&mut line, description, 30);
    line.append(" ");
    line.append(last);
    proof {
        assert(line@ =~= table_line(command@, action@, description@, last@));
    }
    line
}

/// The mapping table: its title, heading and rule, then one line per
/// mapping, in order.
pub fn mapping_table(ms: &Vec<CommandMapping>) -> (lines: Vec<String>)
    ensures
        lines@.len() == ms@.len() + 3,
        lines@[0]@ == table_title(),
        lines@[1]@ == table_heading(),
        lines@[2]@ == table_rule(),
        forall|i: int| 0 <= i < ms@.len() ==> #[trigger] lines@[i + 3]@ == mapping_line(ms@[i]),
{
    let mut lines: Vec<String> = Vec::new();
    lines.push(String::from_str("=== Command Mappings ==="));
    lines.push(table_line_of("Command", "Action", "Description", "Enabled"));
    lines.push(
        String::from_str(
            "--------------------------------------------------------------------------------",
        ),
    );
    let n = ms.len();
    let mut i: usize = 0;
    while i < n
        invariant
            n == ms@.len(),
            i <= n,
            lines@.len() == i + 3,
            lines@[0]@ == table_title(),
            lines@[1]@ == table_heading(),
            lines@[2]@ == table_rule(),
            forall|j: int| 0 <= j < i ==> #[trigger] lines@[j + 3]@ == mapping_line(ms@[j]),
        decreases n - i,
    {
        let m = &ms[i];
        let mut line = table_line_of(m.command.as_str(), m.action.as_str(), m.description.as_str(), "");
        append_yes_no(&mut line, m.enabled);
        proof {
            reveal_strlit("");
            assert(line@ =~= mapping_line(ms@[i as int]));
        }
        lines.push(line);
        i = i + 1;
    }
    lines
}

/// What a lookup of `command` prints: the fields of the mapping found, or a
/// line saying that none was.
pub fn mapping_details(command: &str, found: Option<&CommandMapping>) -> (lines: Vec<String>)
    ensures
        match found {
            Some(m) => lines@.len() == 4 && forall|i: int|
                0 <= i < 4 ==> #[trigger] lines@[i]@ == detail_lines(*m)[i],
            None => lines@.len() == 1 && lines@[0]@ == not_found_line(command@),
        },
{
    let mut lines: Vec<String> = Vec::new();
    match found {
        Some(m) => {
            let mut l = String::from_str("Command:     ");
            l.append(m.command.as_str());
            lines.push(l);
            let mut l = String::from_str("Action:      ");
            l.append(m.action.as_str());
            lines.push(l);
            let mut l = String::from_str("Description: ");
            l.append(m.description.as_str());
            lines.push(l);
            let mut l = String::from_str("Enabled:     ");
            append_yes_no(&mut l, m.enabled);
            lines.push(l);
        },
        None => {
            let mut l = String::from_str("Command '");
            l.append(command);
            l.append("' not found.");
            lines.push(l);
        },
    }
    lines
}

} // verus!
