//! Command-line options: the options that a program knows, the values
//! that a command line gives them, and the arguments that are no option.

use crate::text::{bytes_agree, same_text, text_after, text_after_head};
use std::collections::HashMap;
use vstd::prelude::*;
use vstd::std_specs::hash::group_hash_axioms;
use vstd::utf8::encode_utf8;

verus! {

broadcast use group_hash_axioms;

/// How an option takes its value.
#[derive(Debug, Clone, Copy, PartialEq, Eq, Structural)]
pub enum CmdValType {
    /// No value: `-v`.
    NoVal,
    /// A value may follow the name directly: `-O` or `-O2`.
    OptVal,
    /// The value is the next argument: `-o file`.
    ValSpace,
    /// The value follows the name directly: `-std=c99`.
    ValNoSpace,
    /// The value follows the name directly or is the next argument:
    /// `-Ipath` or `-I path`.
    ValOptSpace,
}

/// One option that a program knows.
#[derive(Debug)]
pub struct CmdInfo {
    pub short: String,
    pub long: String,
    pub help: String,
    pub val_type: CmdValType,
    pub val_str: String,
    pub index: usize,
}

/// Which of an option's two names an argument matched.
#[derive(Debug, Clone, Copy, PartialEq, Eq, Structural)]
pub enum CmdMatchType {
    Short,
    Long,
}

/// An option as plain values.
pub struct CmdInfoView {
    pub short: Seq<char>,
    pub long: Seq<char>,
    pub help: Seq<char>,
    pub val_type: CmdValType,
    pub val_str: Seq<char>,
    pub index: usize,
}

impl View for CmdInfo {
    type V = CmdInfoView;

    open spec fn view(&self) -> CmdInfoView {
        CmdInfoView {
            short: self.short@,
            long: self.long@,
            help: self.help@,
            val_type: self.val_type,
            val_str: self.val_str@,
            index: self.index,
        }
    }
}

impl CmdInfo {
    /// Whether two options have the same names.
    pub fn eq(&self, other: &Self) -> (r: bool)
        ensures
            r == (self@.short == other@.short && self@.long == other@.long),
    {
        (self.short == other.short) && (self.long == other.long)
    }
}

/// Whether one of `a` and `b` begins with the other, byte for byte of
/// their encodings.
pub open spec fn agree(a: Seq<char>, b: Seq<char>) -> bool {
    let x = encode_utf8(a);
    let y = encode_utf8(b);
    if x.len() < y.len() {
        y.take(x.len() as int) == x
    } else {
        x.take(y.len() as int) == y
    }
}

/// Whether an argument names an option, and by which name.
///
/// An option without a value, or with its value in the next argument,
/// is named by an argument equal to one of its names; the short name is
/// tried first. Any other option is named by an argument that begins with
/// one of its names, or with which one of its names begins; the long name
/// is tried first, and an empty name is never tried.
pub open spec fn match_kind(c: CmdInfoView, arg: Seq<char>) -> Option<CmdMatchType> {
    match c.val_type {
        CmdValType::NoVal | CmdValType::ValSpace => {
            if c.short == arg {
                Some(CmdMatchType::Short)
            } else if c.long == arg {
                Some(CmdMatchType::Long)
            } else {
                None
            }
        },
        _ => {
            if c.long.len() > 0 && agree(c.long, arg) {
                Some(CmdMatchType::Long)
            } else if c.short.len() > 0 && agree(c.short, arg) {
                Some(CmdMatchType::Short)
            } else {
                None
            }
        },
    }
}

/// Whether `name` is one of the option's names.
pub open spec fn named(c: CmdInfoView, name: Seq<char>) -> bool {
    c.long == name || c.short == name
}

/// The position of the first option at or after `from` that `name` is a
/// name of.
pub open spec fn find_named(info: Seq<CmdInfoView>, name: Seq<char>, from: int) -> Option<int>
    decreases info.len() - from,
{
    if from < 0 || from >= info.len() {
        None
    } else if named(info[from], name) {
        Some(from)
    } else {
        find_named(info, name, from + 1)
    }
}

/// The index that `name` stands for: that of the first option that it is
/// a name of.
pub open spec fn index_of(info: Seq<CmdInfoView>, name: Seq<char>) -> Option<usize> {
    match find_named(info, name, 0) {
        Some(p) => Some(info[p].index),
        None => None,
    }
}

/// The position of the first option at or after `from` with the names of
/// `c`.
pub open spec fn find_same(info: Seq<CmdInfoView>, c: CmdInfoView, from: int) -> Option<int>
    decreases info.len() - from,
{
    if from < 0 || from >= info.len() {
        None
    } else if info[from].short == c.short && info[from].long == c.long {
        Some(from)
    } else {
        find_same(info, c, from + 1)
    }
}

/// The views of a run of options.
pub open spec fn info_views(info: Seq<CmdInfo>) -> Seq<CmdInfoView> {
    info.map_values(|c: CmdInfo| c@)
}

/// The views of a run of strings.
pub open spec fn strings(v: Seq<String>) -> Seq<Seq<char>> {
    v.map_values(|s: String| s@)
}

/// The values of each option, as plain values.
pub open spec fn values_view(m: Map<usize, Vec<String>>) -> Map<usize, Seq<Seq<char>>> {
    m.map_values(|v: Vec<String>| strings(v@))
}

/// Why an option was not added, or a command line not accepted.
#[derive(Debug, Clone, Copy, PartialEq, Eq, Structural)]
pub enum CmdError {
    /// An option with neither a short nor a long name.
    MissingCommand,
    /// An option without a help text.
    MissingHelp,
    /// The command line ends where the value of the option with this
    /// index must follow.
    MissingValue(usize),
    /// The command line names the option with this index without the
    /// value that must follow the name directly.
    MissingAttachedValue(usize),
}

/// The position of the first option at or after `from` that `arg` names.
pub open spec fn find_match(info: Seq<CmdInfoView>, arg: Seq<char>, from: int) -> Option<int>
    decreases info.len() - from,
{
    if from < 0 || from >= info.len() {
        None
    } else if match_kind(info[from], arg) is Some {
        Some(from)
    } else {
        find_match(info, arg, from + 1)
    }
}

/// The name of an option that an argument matched.
pub open spec fn matched_name(c: CmdInfoView, kind: CmdMatchType) -> Seq<char> {
    match kind {
        CmdMatchType::Long => c.long,
        CmdMatchType::Short => c.short,
    }
}

/// Whether `arg` goes on after the name that it matched.
pub open spec fn has_attached(c: CmdInfoView, kind: CmdMatchType, arg: Seq<char>) -> bool {
    encode_utf8(matched_name(c, kind)).len() < encode_utf8(arg).len()
}

/// What `arg` holds after the name that it matched.
pub open spec fn attached(c: CmdInfoView, kind: CmdMatchType, arg: Seq<char>) -> Seq<char> {
    text_after(arg, encode_utf8(matched_name(c, kind)).len() as int)
}

/// The values after one more value was given to the option `index`.
pub open spec fn with_value(
    args: Map<usize, Seq<Seq<char>>>,
    index: usize,
    value: Seq<char>,
) -> Map<usize, Seq<Seq<char>>> {
    if args.contains_key(index) {
        args.insert(index, args[index].push(value))
    } else {
        args.insert(index, seq![value])
    }
}

/// What a command line has given, up to some argument.
#[verifier::ext_equal]
pub struct ParseState {
    /// The values given to each option that was named, by its index.
    pub args: Map<usize, Seq<Seq<char>>>,
    /// The arguments that name no option, in order.
    pub others: Seq<Seq<char>>,
    /// The index of the option whose value the next argument is.
    pub pending: Option<usize>,
}

/// What one argument adds to what a command line has given.
///
/// An argument that follows an option whose value is the next argument is
/// that value, whatever it holds. Any other argument is held against the
/// options in their order, and the first that it names decides:
/// - `NoVal`: the option is named, and loses any values it had;
/// - `ValSpace`: the next argument is its value;
/// - `OptVal`: what follows the name is one more value; if nothing follows,
///   the option is named without a new value;
/// - `ValNoSpace`: what follows the name is one more value; if nothing
///   follows, the command line is refused;
/// - `ValOptSpace`: what follows the name is one more value; if nothing
///   follows, the next argument is.
/// An argument that names no option joins the other arguments.
pub open spec fn take_argument(info: Seq<CmdInfoView>, st: ParseState, arg: Seq<char>) -> Result<
    ParseState,
    CmdError,
> {
    match st.pending {
        Some(index) => Ok(
            ParseState { args: with_value(st.args, index, arg), pending: None, ..st },
        ),
        None => match find_match(info, arg, 0) {
            None => Ok(ParseState { others: st.others.push(arg), ..st }),
            Some(p) => {
                let c = info[p];
                let kind = match_kind(c, arg)->0;
                let more = ParseState {
                    args: with_value(st.args, c.index, attached(c, kind, arg)),
                    ..st
                };
                match c.val_type {
                    CmdValType::NoVal => Ok(
                        ParseState { args: st.args.insert(c.index, Seq::empty()), ..st },
                    ),
                    CmdValType::ValSpace => Ok(ParseState { pending: Some(c.index), ..st }),
                    CmdValType::OptVal => if has_attached(c, kind, arg) {
                        Ok(more)
                    } else if st.args.contains_key(c.index) {
                        Ok(st)
                    } else {
                        Ok(ParseState { args: st.args.insert(c.index, Seq::empty()), ..st })
                    },
                    CmdValType::ValNoSpace => if has_attached(c, kind, arg) {
                        Ok(more)
                    } else {
                        Err(CmdError::MissingAttachedValue(c.index))
                    },
                    CmdValType::ValOptSpace => if has_attached(c, kind, arg) {
                        Ok(more)
                    } else {
                        Ok(ParseState { pending: Some(c.index), ..st })
                    },
                }
            },
        },
    }
}

/// What the arguments from `from` on add to what a command line has
/// given, and why it is refused, if it is. A refused argument and those
/// after it add nothing; a command line that ends where a value must
/// follow is refused at its end.
pub open spec fn take_arguments(
    info: Seq<CmdInfoView>,
    st: ParseState,
    args: Seq<Seq<char>>,
    from: int,
) -> (ParseState, Option<CmdError>)
    decreases args.len() - from,
{
    if from < 0 || from >= args.len() {
        match st.pending {
            Some(index) => (st, Some(CmdError::MissingValue(index))),
            None => (st, None),
        }
    } else {
        match take_argument(info, st, args[from]) {
            Ok(next) => take_arguments(info, next, args, from + 1),
            Err(e) => (st, Some(e)),
        }
    }
}

/// `n` spaces.
pub open spec fn spaces(n: nat) -> Seq<char> {
    Seq::new(n, |i: int| ' ')
}

/// How a help text shows the value of an option.
pub open spec fn value_hint(c: CmdInfoView) -> Seq<char> {
    match c.val_type {
        CmdValType::NoVal => Seq::empty(),
        CmdValType::OptVal => "["@ + c.val_str + "]"@,
        CmdValType::ValSpace => " <"@ + c.val_str + ">"@,
        CmdValType::ValNoSpace => "<"@ + c.val_str + ">"@,
        CmdValType::ValOptSpace => "[ ]<"@ + c.val_str + ">"@,
    }
}

/// How a help text shows the names of an option: the short name, with
/// the long one in brackets after it if there is one; the long name alone
/// if there is no short one.
pub open spec fn option_names(c: CmdInfoView) -> Seq<char> {
    if c.short.len() == 0 {
        c.long
    } else if c.long.len() == 0 {
        c.short
    } else {
        c.short + "("@ + c.long + ")"@
    }
}

/// The left column of an option's help: two spaces, the names, the value.
pub open spec fn option_head(c: CmdInfoView) -> Seq<char> {
    "  "@ + option_names(c) + value_hint(c)
}

/// The help of one option: the left column, filled with spaces to 25
/// bytes if it holds fewer than 24, and else followed by a line feed and
/// 25 spaces; then the help text.
pub open spec fn help_entry(c: CmdInfoView) -> Seq<char> {
    let head = option_head(c);
    let width = encode_utf8(head).len();
    if width < 24 {
        head + spaces((25 - width) as nat) + c.help
    } else {
        head + "\n"@ + spaces(25) + c.help
    }
}

/// The help of each option, each ended by a line feed.
pub open spec fn help_lines(info: Seq<CmdInfoView>) -> Seq<char>
    decreases info.len(),
{
    if info.len() == 0 {
        Seq::empty()
    } else {
        help_lines(info.drop_last()) + help_entry(info.last()) + "\n"@
    }
}

/// The help of all options: the help of each, in order, separated by
/// line feeds.
pub open spec fn help_text(info: Seq<CmdInfoView>) -> Seq<char> {
    let lines = help_lines(info);
    if lines.len() == 0 {
        lines
    } else {
        lines.drop_last()
    }
}

/// The options that a program knows and what a command line gave them.
#[derive(Debug)]
pub struct CmdLine {
    /// The options, in the order in which they were added.
    pub info: Vec<CmdInfo>,
    /// The values given to each option that was named, by its index.
    pub args: HashMap<usize, Vec<String>>,
    /// The arguments that name no option, in order.
    pub others: Vec<String>,
}

/// A command line as plain values.
#[verifier::ext_equal]
pub struct CmdLineView {
    pub info: Seq<CmdInfoView>,
    pub args: Map<usize, Seq<Seq<char>>>,
    pub others: Seq<Seq<char>>,
}

impl View for CmdLine {
    type V = CmdLineView;

    open spec fn view(&self) -> CmdLineView {
        CmdLineView {
            info: info_views(self.info@),
            args: values_view(self.args@),
            others: strings(self.others@),
        }
    }
}

/// The option that `add` makes of its arguments: an empty value name
/// becomes `value`.
pub open spec fn new_option(
    short: Seq<char>,
    long: Seq<char>,
    help: Seq<char>,
    val_type: CmdValType,
    val_str: Seq<char>,
    index: usize,
) -> CmdInfoView {
    CmdInfoView {
        short,
        long,
        help,
        val_type,
        val_str: if val_str.len() == 0 {
            "value"@
        } else {
            val_str
        },
        index,
    }
}

impl CmdLineView {
    /// What adding an option does, and what `add` returns.
    ///
    /// An option needs a name and a help text: without both names it is
    /// refused as `MissingCommand`, else without a help text as
    /// `MissingHelp`. An option with the names of one that is there already
    /// is left out, and the result is `Ok(false)`. Any other option is
    /// appended, with the number of options before it as its index, and
    /// the result is `Ok(true)`.
    pub open spec fn added(
        self,
        short: Seq<char>,
        long: Seq<char>,
        help: Seq<char>,
        val_type: CmdValType,
        val_str: Seq<char>,
    ) -> (CmdLineView, Result<bool, CmdError>) {
        if short.len() == 0 && long.len() == 0 {
            (self, Err(CmdError::MissingCommand))
        } else if help.len() == 0 {
            (self, Err(CmdError::MissingHelp))
        } else if find_same(self.info, new_option(short, long, help, val_type, val_str, 0), 0)
            is Some {
            (self, Ok(false))
        } else {
            (
                CmdLineView {
                    info: self.info.push(
                        new_option(short, long, help, val_type, val_str, self.info.len() as usize),
                    ),
                    ..self
                },
                Ok(true),
            )
        }
    }

    /// What reading a command line adds to what was given before, and why
    /// the command line is refused, if it is.
    pub open spec fn parsed(self, args: Seq<Seq<char>>) -> (ParseState, Option<CmdError>) {
        take_arguments(
            self.info,
            ParseState { args: self.args, others: self.others, pending: None },
            args,
            0,
        )
    }
}

impl CmdLine {
    /// No options, no values, no other arguments.
    pub fn new() -> (c: CmdLine)
        ensures
            c@ == (CmdLineView { info: Seq::empty(), args: Map::empty(), others: Seq::empty() }),
    {
        let c = CmdLine { info: Vec::new(), args: HashMap::new(), others: Vec::new() };
        assert(c@ =~= (CmdLineView {
            info: Seq::empty(),
            args: Map::empty(),
            others: Seq::empty(),
        }));
        c
    }

    /// Adds an option, unless it lacks a name or a help text, or has the
    /// names of an option that is there already.
    #[verifier::loop_isolation(false)]
    pub fn add(
        &mut self,
        short: &str,
        long: &str,
        help: &str,
        val_type: CmdValType,
        val_str: &str,
    ) -> (res: Result<bool, CmdError>)
        ensures
            final(self)@ == old(self)@.added(short@, long@, help@, val_type, val_str@).0,
            res == old(self)@.added(short@, long@, help@, val_type, val_str@).1,
    {
        if short.is_empty() && long.is_empty() {
            return Err(CmdError::MissingCommand);
        }
        if help.is_empty() {
            return Err(CmdError::MissingHelp);
        }
        let cmd = CmdInfo {
            short: String::from_str(short),
            long: String::from_str(long),
            help: String::from_str(help),
            val_type,
            val_str: if val_str.is_empty() {
                String::from_str("value")
            } else {
                String::from_str(val_str)
            },
            index: self.info.len(),
        };
        let ghost probe = new_option(short@, long@, help@, val_type, val_str@, 0);
        let mut i: usize = 0;
        while i < self.info.len()
            invariant
                i <= self.info.len(),
                *self == *old(self),
                cmd@.short == probe.short,
                cmd@.long == probe.long,
                find_same(self@.info, probe, 0) == find_same(self@.info, probe, i as int),
            decreases self.info.len() - i,
        {
            if self.info[i].eq(&cmd) {
                return Ok(false);
            }
            i += 1;
        }
        self.info.push(cmd);
        assert(final(self)@.info =~= old(self)@.info.push(
            new_option(short@, long@, help@, val_type, val_str@, old(self)@.info.len() as usize),
        ));
        assert(final(self)@ =~= old(self)@.added(short@, long@, help@, val_type, val_str@).0);
        Ok(true)
    }

    /// The help of all options.
    pub fn help(&self) -> (s: String)
        ensures
            s@ == help_text(self@.info),
    {
        let ghost info = self@.info;
        let mut out = String::new();
        let mut i: usize = 0;
        proof {
            reveal_strlit("\n");
        }
        while i < self.info.len()
            invariant
                i <= self.info.len(),
                info == self@.info,
                "\n"@.len() == 1,
                i == 0 ==> out@.len() == 0,
                i > 0 ==> out@ + "\n"@ == help_lines(info.take(i as int)),
            decreases self.info.len() - i,
        {
            let ghost before = info.take(i as int);
            let ghost after = info.take(i + 1);
            assert(after.drop_last() =~= before);
            assert(after.last() == self.info@[i as int]@);
            assert(before.len() == 0 ==> help_lines(before).len() == 0);
            let entry = help_entry_string(&self.info[i]);
            if i > 0 {
                out.append("\n");
            } else {
                assert(out@ + entry@ =~= entry@);
            }
            out.append(entry.as_str());
            assert(out@ + "\n"@ =~= help_lines(before) + help_entry(after.last()) + "\n"@);
            i += 1;
        }
        assert(info.take(i as int) =~= info);
        assert(i > 0 ==> (out@ + "\n"@).drop_last() =~= out@);
        out
    }

    /// The index that `name` stands for: that of the first option that it
    /// is a name of.
    pub fn get_index(&self, name: &str) -> (r: Option<usize>)
        ensures
            r == index_of(self@.info, name@),
    {
        let mut i: usize = 0;
        while i < self.info.len()
            invariant
                i <= self.info.len(),
                find_named(self@.info, name@, 0) == find_named(self@.info, name@, i as int),
            decreases self.info.len() - i,
        {
            let cmd = &self.info[i];
            if same_text(cmd.long.as_str(), name) || same_text(cmd.short.as_str(), name) {
                return Some(cmd.index);
            }
            i += 1;
        }
        None
    }

    /// Whether an argument names an option, and by which name.
    pub fn cmd_is_meatch(cmd: &CmdInfo, arg: &str) -> (r: Option<CmdMatchType>)
        ensures
            r == match_kind(cmd@, arg@),
    {
        match cmd.val_type {
            CmdValType::NoVal | CmdValType::ValSpace => {
                if same_text(cmd.short.as_str(), arg) {
                    Some(CmdMatchType::Short)
                } else if same_text(cmd.long.as_str(), arg) {
                    Some(CmdMatchType::Long)
                } else {
                    None
                }
            },
            _ => {
                if !cmd.long.as_str().is_empty() && begins_alike(cmd.long.as_str(), arg) {
                    Some(CmdMatchType::Long)
                } else if !cmd.short.as_str().is_empty() && begins_alike(cmd.short.as_str(), arg) {
                    Some(CmdMatchType::Short)
                } else {
                    None
                }
            },
        }
    }

    /// Reads a command line: the values of the options that it names go
    /// to `args`, the arguments that name no option to `others`.
    #[verifier::loop_isolation(false)]
    pub fn parse(&mut self, args: &Vec<String>) -> (res: Result<(), CmdError>)
        ensures
            final(self)@.info == old(self)@.info,
            final(self)@.args == old(self)@.parsed(strings(args@)).0.args,
            final(self)@.others == old(self)@.parsed(strings(args@)).0.others,
            res == match old(self)@.parsed(strings(args@)).1 {
                Some(e) => Err::<(), CmdError>(e),
                None => Ok(()),
            },
    {
        let ghost texts = strings(args@);
        let ghost info = self@.info;
        let ghost goal = old(self)@.parsed(texts);
        let mut pending: Option<usize> = None;
        let mut k: usize = 0;
        while k < args.len()
            invariant
                k <= args.len(),
                self.info == old(self).info,
                goal == take_arguments(
                    info,
                    ParseState { args: self@.args, others: self@.others, pending },
                    texts,
                    k as int,
                ),
            decreases args.len() - k,
        {
            let arg = &args[k];
            let ghost st = ParseState { args: self@.args, others: self@.others, pending };
            assert(texts[k as int] == arg@);
            match pending {
                Some(index) => {
                    push_value(&mut self.args, index, arg.clone());
                    pending = None;
                },
                None => match find_option(&self.info, arg.as_str()) {
                    None => {
                        self.others.push(arg.clone());
                        assert(self@.others =~= st.others.push(arg@));
                    },
                    Some((p, kind)) => {
                        let index = self.info[p].index;
                        let val_type = self.info[p].val_type;
                        let ghost c = info[p as int];
                        assert(c == self.info[p as int]@);
                        if val_type == CmdValType::NoVal {
                            set_empty(&mut self.args, index);
                        } else if val_type == CmdValType::ValSpace {
                            pending = Some(index);
                        } else {
                            let name = match kind {
                                CmdMatchType::Long => self.info[p].long.as_str(),
                                CmdMatchType::Short => self.info[p].short.as_str(),
                            };
                            assert(name@ == matched_name(c, kind));
                            if name.as_bytes().len() < arg.as_str().as_bytes().len() {
                                let value = text_after_head(arg.as_str(), name);
                                push_value(&mut self.args, index, value);
                            } else if val_type == CmdValType::ValNoSpace {
                                return Err(CmdError::MissingAttachedValue(index));
                            } else if val_type == CmdValType::ValOptSpace {
                                pending = Some(index);
                            } else if self.args.get(&index).is_none() {
                                set_empty(&mut self.args, index);
                            }
                        }
                    },
                },
            }
            assert(Ok::<ParseState, CmdError>(
                ParseState { args: self@.args, others: self@.others, pending },
            ) == take_argument(info, st, arg@));
            k += 1;
        }
        match pending {
            Some(index) => Err(CmdError::MissingValue(index)),
            None => Ok(()),
        }
    }

    /// Whether the command line named the option that `name` stands for.
    pub fn is_include(&self, name: &str) -> (r: bool)
        ensures
            r == match index_of(self@.info, name@) {
                Some(index) => self@.args.contains_key(index),
                None => false,
            },
    {
        match self.get_index(name) {
            Some(index) => self.args.get(&index).is_some(),
            None => false,
        }
    }

    /// The values that the command line gave to `cmd`, if it named it.
    pub fn get_value(&self, cmd: &CmdInfo) -> (r: Option<&Vec<String>>)
        ensures
            r is Some <==> self@.args.contains_key(cmd.index),
            r matches Some(v) ==> strings(v@) == self@.args[cmd.index],
    {
        self.get_value_by_index(cmd.index)
    }

    /// The values that the command line gave to the option that `name`
    /// stands for, if it named it.
    pub fn get_value_by_name(&self, name: &str) -> (r: Option<&Vec<String>>)
        ensures
            r is Some <==> (index_of(self@.info, name@) matches Some(index)
                && self@.args.contains_key(index)),
            r matches Some(v) ==> strings(v@) == self@.args[index_of(self@.info, name@)->0],
    {
        match self.get_index(name) {
            Some(index) => self.get_value_by_index(index),
            None => None,
        }
    }

    /// The values that the command line gave to the option with this
    /// index, if it named it.
    pub fn get_value_by_index(&self, index: usize) -> (r: Option<&Vec<String>>)
        ensures
            r is Some <==> self@.args.contains_key(index),
            r matches Some(v) ==> strings(v@) == self@.args[index],
    {
        self.args.get(&index)
    }
}

/// Whether one of `a` and `b` begins with the other.
fn begins_alike(a: &str, b: &str) -> (r: bool)
    ensures
        r == agree(a@, b@),
{
    let x = a.as_bytes();
    let y = b.as_bytes();
    let n = if x.len() < y.len() {
        x.len()
    } else {
        y.len()
    };
    let r = bytes_agree(x, y, n);
    proof {
        assert(x@.take(x@.len() as int) =~= x@);
        assert(y@.take(y@.len() as int) =~= y@);
    }
    r
}

/// Appends `n` spaces to `s`.
fn pad(s: &mut String, n: usize)
    ensures
        final(s)@ == old(s)@ + spaces(n as nat),
{
    proof {
        reveal_strlit(" ");
    }
    let mut i: usize = 0;
    assert(s@ + spaces(0) =~= s@);
    while i < n
        invariant
            i <= n,
            " "@ =~= seq![' '],
            s@ == old(s)@ + spaces(i as nat),
        decreases n - i,
    {
        s.append(" ");
        assert(s@ =~= old(s)@ + spaces((i + 1) as nat));
        i += 1;
    }
}

/// The help of one option.
fn help_entry_string(cmd: &CmdInfo) -> (s: String)
    ensures
        s@ == help_entry(cmd@),
{
    let mut s = String::from_str("  ");
    if cmd.short.as_str().is_empty() {
        s.append(cmd.long.as_str());
    } else {
        s.append(cmd.short.as_str());
        if !cmd.long.as_str().is_empty() {
            s.append("(");
            s.append(cmd.long.as_str());
            s.append(")");
        }
    }
    assert(s@ =~= "  "@ + option_names(cmd@));
    match cmd.val_type {
        CmdValType::NoVal => {},
        CmdValType::OptVal => {
            s.append("[");
            s.append(cmd.val_str.as_str());
            s.append("]");
        },
        CmdValType::ValSpace => {
            s.append(" <");
            s.append(cmd.val_str.as_str());
            s.append(">");
        },
        CmdValType::ValNoSpace => {
            s.append("<");
            s.append(cmd.val_str.as_str());
            s.append(">");
        },
        CmdValType::ValOptSpace => {
            s.append("[ ]<");
            s.append(cmd.val_str.as_str());
            s.append(">");
        },
    }
    assert(s@ =~= option_head(cmd@));
    let width = s.as_str().as_bytes().len();
    if width < 24 {
        pad(&mut s, 25 - width);
    } else {
        s.append("\n");
        pad(&mut s, 25);
    }
    s.append(cmd.help.as_str());
    s
}

/// The first option that `arg` names, and by which name.
fn find_option(info: &Vec<CmdInfo>, arg: &str) -> (r: Option<(usize, CmdMatchType)>)
    ensures
        match r {
            Some((p, kind)) => p < info@.len() && find_match(info_views(info@), arg@, 0) == Some(
                p as int,
            ) && match_kind(info@[p as int]@, arg@) == Some(kind),
            None => find_match(info_views(info@), arg@, 0) is None,
        },
{
    let mut i: usize = 0;
    while i < info.len()
        invariant
            i <= info.len(),
            find_match(info_views(info@), arg@, 0) == find_match(info_views(info@), arg@, i as int),
        decreases info.len() - i,
    {
        match CmdLine::cmd_is_meatch(&info[i], arg) {
            Some(kind) => {
                return Some((i, kind));
            },
            None => {},
        }
        i += 1;
    }
    None
}

/// Storing values for an option stores their views.
proof fn lemma_values_insert(m: Map<usize, Vec<String>>, k: usize, v: Vec<String>)
    ensures
        values_view(m.insert(k, v)) == values_view(m).insert(k, strings(v@)),
{
    assert(values_view(m.insert(k, v)) =~= values_view(m).insert(k, strings(v@)));
}

/// Dropping the values of an option drops their views.
proof fn lemma_values_remove(m: Map<usize, Vec<String>>, k: usize)
    ensures
        values_view(m.remove(k)) == values_view(m).remove(k),
{
    assert(values_view(m.remove(k)) =~= values_view(m).remove(k));
}

/// Names the option `index` without a value, dropping any it had.
fn set_empty(args: &mut HashMap<usize, Vec<String>>, index: usize)
    ensures
        values_view(final(args)@) == values_view(old(args)@).insert(index, Seq::empty()),
{
    let values: Vec<String> = Vec::new();
    assert(strings(values@) =~= Seq::empty());
    proof {
        lemma_values_insert(args@, index, values);
    }
    args.insert(index, values);
}

/// Gives one more value to the option `index`.
fn push_value(args: &mut HashMap<usize, Vec<String>>, index: usize, value: String)
    ensures
        values_view(final(args)@) == with_value(values_view(old(args)@), index, value@),
{
    let ghost before = values_view(args@);
    let found = args.remove(&index);
    proof {
        lemma_values_remove(old(args)@, index);
    }
    let mut values = match found {
        Some(v) => v,
        None => Vec::new(),
    };
    let ghost had = strings(values@);
    assert(before.contains_key(index) ==> had == before[index]);
    assert(!before.contains_key(index) ==> had =~= Seq::empty());
    values.push(value);
    assert(strings(values@) =~= had.push(value@));
    proof {
        lemma_values_insert(args@, index, values);
    }
    args.insert(index, values);
    assert(values_view(final(args)@) =~= with_value(before, index, value@));
}

} // verus!
