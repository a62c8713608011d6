//! The rendering strategies: two external programs that turn an image into
//! ANSI text, and the graphical strategy that keeps one of them as its
//! text-mode fallback.
//!
//! Running a program is left to the caller.  A converter says which command
//! to run ([`AsciiConverter::command`]) and what to make of how it ended
//! ([`AsciiConverter::interpret`]).
use vstd::prelude::*;
use vstd::string::StringExecFns;

use crate::config::{ChafaConfig, Jp2aConfig, PTuiConfig};
use crate::strings::{decimal, push_char, push_decimal, str_eq};

verus! {

/// A program to run and the arguments to hand it.
#[derive(Debug)]
pub struct ConverterCommand {
    pub program: String,
    pub args: Vec<String>,
}

/// How a run of an external program ended.
#[derive(Debug)]
pub enum ProcessOutcome {
    /// The program ran to its end.
    Exited { success: bool, stdout: String, stderr: String },
    /// The program could not be started; the reason is given.
    NotStarted(String),
}

/// The views of a list of strings.
pub open spec fn views(v: Seq<String>) -> Seq<Seq<char>> {
    v.map_values(|s: String| s@)
}

/// `<W>x<H>` in decimal.
pub open spec fn size_text(width: u16, height: u16) -> Seq<char> {
    decimal(width as nat) + seq!['x'] + decimal(height as nat)
}

/// The arguments of a chafa run:
/// `-f <format> -c <colors> --size <W>x<H> <path>`.
pub open spec fn chafa_arguments(
    config: ChafaConfig,
    path: Seq<char>,
    width: u16,
    height: u16,
) -> Seq<Seq<char>> {
    seq![
        "-f"@,
        config.format@,
        "-c"@,
        config.colors@,
        "--size"@,
        size_text(width, height),
        path,
    ]
}

/// The arguments of a jp2a run:
/// `--size=<W>x<H> [--colors] [--invert] [--chars=<set>] <path>`.
pub open spec fn jp2a_arguments(
    config: Jp2aConfig,
    path: Seq<char>,
    width: u16,
    height: u16,
) -> Seq<Seq<char>> {
    let size = seq!["--size="@ + size_text(width, height)];
    let colors = if config.colors {
        seq!["--colors"@]
    } else {
        seq![]
    };
    let invert = if config.invert {
        seq!["--invert"@]
    } else {
        seq![]
    };
    let chars = match config.chars {
        Some(set) => seq!["--chars="@ + set@],
        None => seq![],
    };
    size + colors + invert + chars + seq![path]
}

/// What a converter makes of a run: the program's output when it
/// succeeded, else `error_prefix` and what the program wrote to its error
/// stream, or `start_prefix` and why the program could not be started.
pub open spec fn interpreted(
    error_prefix: Seq<char>,
    start_prefix: Seq<char>,
    outcome: ProcessOutcome,
) -> Result<Seq<char>, Seq<char>> {
    match outcome {
        ProcessOutcome::Exited { success, stdout, stderr } => if success {
            Ok(stdout@)
        } else {
            Err(error_prefix + stderr@)
        },
        ProcessOutcome::NotStarted(reason) => Err(start_prefix + reason@),
    }
}

/// The view of a conversion result.
pub open spec fn result_view(r: Result<String, String>) -> Result<Seq<char>, Seq<char>> {
    match r {
        Ok(s) => Ok(s@),
        Err(e) => Err(e@),
    }
}

fn interpret_outcome(error_prefix: &str, start_prefix: &str, outcome: &ProcessOutcome) -> (r:
    Result<String, String>)
    ensures
        result_view(r) == interpreted(error_prefix@, start_prefix@, *outcome),
{
    match outcome {
        ProcessOutcome::Exited { success, stdout, stderr } => {
            if *success {
                Ok(stdout.clone())
            } else {
                let mut message = error_prefix.to_owned();
                message.append(stderr.as_str());
                Err(message)
            }
        },
        ProcessOutcome::NotStarted(reason) => {
            let mut message = start_prefix.to_owned();
            message.append(reason.as_str());
            Err(message)
        },
    }
}

fn push_size(out: &mut String, width: u16, height: u16)
    ensures
        final(out)@ == old(out)@ + size_text(width, height),
{
    push_decimal(out, width as u64);
    push_char(out, 'x');
    push_decimal(out, height as u64);
    assert(out@ =~= old(out)@ + size_text(width, height));
}

/// What every rendering strategy answers.
pub trait AsciiConverter {
    /// The strategy's name: `"chafa"`, `"jp2a"` or `"graphical"`.
    fn get_name(&self) -> &'static str;

    /// Whether the text it produces can be animated character by character.
    fn supports_transitions(&self) -> bool;

    /// Whether it draws pixels rather than text.
    fn is_graphical(&self) -> bool;

    /// The command that converts the image at `path` to text of the given
    /// size in cells.
    fn command(&self, path: &str, width: u16, height: u16) -> ConverterCommand;

    /// The text that a run of [`command`](AsciiConverter::command) gave, or
    /// the error to report.
    fn interpret(&self, outcome: &ProcessOutcome) -> Result<String, String>;
}

/// Converts through the `chafa` program.
#[derive(Debug)]
pub struct ChafaConverter {
    pub config: ChafaConfig,
}

impl ChafaConverter {
    pub fn new(config: ChafaConfig) -> (r: Self)
        ensures
            r.config == config,
    {
        ChafaConverter { config }
    }
}

impl AsciiConverter for ChafaConverter {
    fn get_name(&self) -> (r: &'static str)
        ensures
            r@ == "chafa"@,
    {
        "chafa"
    }

    /// Chafa mixes positioning and colour codes into its output, which does
    /// not survive being cut character by character.
    fn supports_transitions(&self) -> (r: bool)
        ensures
            !r,
    {
        false
    }

    fn is_graphical(&self) -> (r: bool)
        ensures
            !r,
    {
        false
    }

    fn command(&self, path: &str, width: u16, height: u16) -> (r: ConverterCommand)
        ensures
            r.program@ == "chafa"@,
            views(r.args@) == chafa_arguments(self.config, path@, width, height),
    {
        let mut size = String::new();
        push_size(&mut size, width, height);
        let mut args: Vec<String> = Vec::new();
        args.push("-f".to_owned());
        args.push(self.config.format.clone());
        args.push("-c".to_owned());
        args.push(self.config.colors.clone());
        args.push("--size".to_owned());
        args.push(size);
        args.push(path.to_owned());
        assert(size@ =~= size_text(width, height));
        assert(views(args@) =~= chafa_arguments(self.config, path@, width, height));
        ConverterCommand { program: "chafa".to_owned(), args }
    }

    fn interpret(&self, outcome: &ProcessOutcome) -> (r: Result<String, String>)
        ensures
            result_view(r) == interpreted("Chafa error: "@, "Failed to execute chafa: "@, *outcome),
    {
        interpret_outcome("Chafa error: ", "Failed to execute chafa: ", outcome)
    }
}

/// Converts through the `jp2a` program.
#[derive(Debug)]
pub struct Jp2aConverter {
    pub config: Jp2aConfig,
}

impl Jp2aConverter {
    pub fn new(config: Jp2aConfig) -> (r: Self)
        ensures
            r.config == config,
    {
        Jp2aConverter { config }
    }
}

impl AsciiConverter for Jp2aConverter {
    fn get_name(&self) -> (r: &'static str)
        ensures
            r@ == "jp2a"@,
    {
        "jp2a"
    }

    /// jp2a writes plain characters, which can be revealed one by one.
    fn supports_transitions(&self) -> (r: bool)
        ensures
            r,
    {
        true
    }

    fn is_graphical(&self) -> (r: bool)
        ensures
            !r,
    {
        false
    }

    fn command(&self, path: &str, width: u16, height: u16) -> (r: ConverterCommand)
        ensures
            r.program@ == "jp2a"@,
            views(r.args@) == jp2a_arguments(self.config, path@, width, height),
    {
        let mut args: Vec<String> = Vec::new();
        let mut size = "--size=".to_owned();
        push_size(&mut size, width, height);
        args.push(size);
        if self.config.colors {
            args.push("--colors".to_owned());
        }
        if self.config.invert {
            args.push("--invert".to_owned());
        }
        match &self.config.chars {
            Some(set) => {
                let mut chars = "--chars=".to_owned();
                chars.append(set.as_str());
                args.push(chars);
            },
            None => {},
        }
        args.push(path.to_owned());
        assert(views(args@) =~= jp2a_arguments(self.config, path@, width, height));
        ConverterCommand { program: "jp2a".to_owned(), args }
    }

    fn interpret(&self, outcome: &ProcessOutcome) -> (r: Result<String, String>)
        ensures
            result_view(r) == interpreted("jp2a error: "@, "Failed to execute jp2a: "@, *outcome),
    {
        interpret_outcome("jp2a error: ", "Failed to execute jp2a: ", outcome)
    }
}

/// Draws pixels where the terminal can show them, and falls back to chafa
/// text where it cannot.
#[derive(Debug)]
pub struct GraphicalConverter {
    pub fallback: ChafaConverter,
}

impl GraphicalConverter {
    pub fn new(fallback: ChafaConfig) -> (r: Self)
        ensures
            r.fallback.config == fallback,
    {
        GraphicalConverter { fallback: ChafaConverter::new(fallback) }
    }
}

impl AsciiConverter for GraphicalConverter {
    fn get_name(&self) -> (r: &'static str)
        ensures
            r@ == "graphical"@,
    {
        "graphical"
    }

    fn supports_transitions(&self) -> (r: bool)
        ensures
            !r,
    {
        false
    }

    fn is_graphical(&self) -> (r: bool)
        ensures
            r,
    {
        true
    }

    /// The fallback's command.
    fn command(&self, path: &str, width: u16, height: u16) -> (r: ConverterCommand)
        ensures
            r.program@ == "chafa"@,
            views(r.args@) == chafa_arguments(self.fallback.config, path@, width, height),
    {
        self.fallback.command(path, width, height)
    }

    fn interpret(&self, outcome: &ProcessOutcome) -> (r: Result<String, String>)
        ensures
            result_view(r) == interpreted("Chafa error: "@, "Failed to execute chafa: "@, *outcome),
    {
        self.fallback.interpret(outcome)
    }
}

/// The active rendering strategy; exactly one at a time.
#[derive(Debug)]
pub enum Converter {
    Chafa(ChafaConverter),
    Jp2a(Jp2aConverter),
    Graphical(GraphicalConverter),
}

impl Converter {
    /// The name of the strategy.
    pub open spec fn name(self) -> Seq<char> {
        match self {
            Converter::Chafa(_) => "chafa"@,
            Converter::Jp2a(_) => "jp2a"@,
            Converter::Graphical(_) => "graphical"@,
        }
    }

    /// The arguments of the command that the strategy runs for text.
    pub open spec fn arguments(self, path: Seq<char>, width: u16, height: u16) -> Seq<Seq<char>> {
        match self {
            Converter::Chafa(c) => chafa_arguments(c.config, path, width, height),
            Converter::Jp2a(c) => jp2a_arguments(c.config, path, width, height),
            Converter::Graphical(c) => chafa_arguments(c.fallback.config, path, width, height),
        }
    }

    /// The program that the strategy runs for text.
    pub open spec fn program(self) -> Seq<char> {
        match self {
            Converter::Jp2a(_) => "jp2a"@,
            _ => "chafa"@,
        }
    }

    /// What the strategy makes of a run of its program.
    pub open spec fn interpretation(self, outcome: ProcessOutcome) -> Result<Seq<char>, Seq<char>> {
        match self {
            Converter::Jp2a(_) => interpreted(
                "jp2a error: "@,
                "Failed to execute jp2a: "@,
                outcome,
            ),
            _ => interpreted("Chafa error: "@, "Failed to execute chafa: "@, outcome),
        }
    }
}

impl AsciiConverter for Converter {
    fn get_name(&self) -> (r: &'static str)
        ensures
            r@ == self.name(),
    {
        match self {
            Converter::Chafa(c) => c.get_name(),
            Converter::Jp2a(c) => c.get_name(),
            Converter::Graphical(c) => c.get_name(),
        }
    }

    fn supports_transitions(&self) -> (r: bool)
        ensures
            r == (*self is Jp2a),
    {
        match self {
            Converter::Chafa(c) => c.supports_transitions(),
            Converter::Jp2a(c) => c.supports_transitions(),
            Converter::Graphical(c) => c.supports_transitions(),
        }
    }

    fn is_graphical(&self) -> (r: bool)
        ensures
            r == (*self is Graphical),
    {
        match self {
            Converter::Chafa(c) => c.is_graphical(),
            Converter::Jp2a(c) => c.is_graphical(),
            Converter::Graphical(c) => c.is_graphical(),
        }
    }

    fn command(&self, path: &str, width: u16, height: u16) -> (r: ConverterCommand)
        ensures
            r.program@ == self.program(),
            views(r.args@) == self.arguments(path@, width, height),
    {
        match self {
            Converter::Chafa(c) => c.command(path, width, height),
            Converter::Jp2a(c) => c.command(path, width, height),
            Converter::Graphical(c) => c.command(path, width, height),
        }
    }

    fn interpret(&self, outcome: &ProcessOutcome) -> (r: Result<String, String>)
        ensures
            result_view(r) == self.interpretation(*outcome),
    {
        match self {
            Converter::Chafa(c) => c.interpret(outcome),
            Converter::Jp2a(c) => c.interpret(outcome),
            Converter::Graphical(c) => c.interpret(outcome),
        }
    }
}

/// The strategy that `config` selects: jp2a or the graphical one when named,
/// chafa for `"chafa"` and for every other name.
pub open spec fn selected_converter(config: PTuiConfig) -> Converter {
    if config.converter.selected@ == "jp2a"@ {
        Converter::Jp2a(Jp2aConverter { config: config.converter.jp2a })
    } else if config.converter.selected@ == "graphical"@ {
        Converter::Graphical(
            GraphicalConverter { fallback: ChafaConverter { config: config.converter.chafa } },
        )
    } else {
        Converter::Chafa(ChafaConverter { config: config.converter.chafa })
    }
}

/// Builds the strategy that `config` selects.
pub fn create_converter(config: &PTuiConfig) -> (r: Converter)
    ensures
        r == selected_converter(*config),
{
    if str_eq(config.converter.selected.as_str(), "jp2a") {
        Converter::Jp2a(Jp2aConverter::new(config.converter.jp2a.clone()))
    } else if str_eq(config.converter.selected.as_str(), "graphical") {
        Converter::Graphical(GraphicalConverter::new(config.converter.chafa.clone()))
    } else {
        Converter::Chafa(ChafaConverter::new(config.converter.chafa.clone()))
    }
}

/// The program that must be installed for the converter named `selected`
/// to work: chafa for the graphical converter, which falls back to it;
/// else the converter itself.
pub open spec fn required_program_of(selected: Seq<char>) -> Seq<char> {
    if selected == "graphical"@ {
        "chafa"@
    } else {
        selected
    }
}

/// Names the program that must be installed for a converter to work.
pub fn required_program(selected: &str) -> (r: String)
    ensures
        r@ == required_program_of(selected@),
{
    if str_eq(selected, "graphical") {
        "chafa".to_owned()
    } else {
        selected.to_owned()
    }
}

/// The command whose success shows that the converter `name` is installed:
/// `<name> --version` for `"chafa"` and `"jp2a"`, none for any other name.
pub fn availability_probe(converter_name: &str) -> (r: Option<ConverterCommand>)
    ensures
        match r {
            Some(c) => (converter_name@ == "chafa"@ || converter_name@ == "jp2a"@) && c.program@
                == converter_name@ && views(c.args@) == seq!["--version"@],
            None => converter_name@ != "chafa"@ && converter_name@ != "jp2a"@,
        },
{
    let name = converter_name.to_owned();
    if str_eq(converter_name, "chafa") || str_eq(converter_name, "jp2a") {
        let mut args: Vec<String> = Vec::new();
        args.push("--version".to_owned());
        assert(views(args@) =~= seq!["--version"@]);
        Some(ConverterCommand { program: name, args })
    } else {
        None
    }
}

/// What [`check_converter_availability`] answers.
pub open spec fn availability(name: Seq<char>, probe: Option<bool>) -> Result<(), Seq<char>> {
    if name != "chafa"@ && name != "jp2a"@ {
        Err("Unknown converter: "@ + name)
    } else {
        match probe {
            Some(true) => Ok(()),
            Some(false) => Err(name + " command failed"@),
            None => Err(name + " not found in PATH"@),
        }
    }
}

/// Judges whether the converter `converter_name` can be used, given how the
/// run of its [`availability_probe`] ended: `Some(success)` when it ran,
/// `None` when it could not be started.  A name other than `"chafa"` and
/// `"jp2a"` is unknown, whatever the probe.
pub fn check_converter_availability(converter_name: &str, probe: Option<bool>) -> (r: Result<
    (),
    String,
>)
    ensures
        match r {
            Ok(()) => availability(converter_name@, probe) is Ok,
            Err(e) => availability(converter_name@, probe) == Err::<(), Seq<char>>(e@),
        },
{
    let name = converter_name.to_owned();
    if !str_eq(converter_name, "chafa") && !str_eq(converter_name, "jp2a") {
        let mut message = "Unknown converter: ".to_owned();
        message.append(converter_name);
        return Err(message);
    }
    match probe {
        Some(true) => Ok(()),
        Some(false) => {
            let mut message = name;
            message.append(" command failed");
            Err(message)
        },
        None => {
            let mut message = name;
            message.append(" not found in PATH");
            Err(message)
        },
    }
}

} // verus!
