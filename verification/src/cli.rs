//! The command line: options read left to right.
use vstd::prelude::*;
use crate::config::Config;
use crate::text::{text_eq, trim, trimmed};

verus! {

/// The options given on the command line.
#[derive(Debug)]
pub struct CliArgs {
    /// `--translate <text>` / `-t <text>`: translate the text and print it.
    pub translate_text: Option<String>,
    /// `--popup` / `-p`: show the pop-up.
    pub show_popup: bool,
    /// `--popup-file <path>`: show the pop-up with the text of a file.
    pub popup_file: Option<String>,
    /// `--engine <name>` / `-e <name>`: the engine to use.
    pub engine: Option<String>,
}

/// What reading the command line gives: the options, the arguments that
/// were not understood (to be warned about, in order), and whether help was
/// asked for (reading stops there).
#[derive(Debug)]
pub struct CliParse {
    pub args: CliArgs,
    pub unknown: Vec<String>,
    pub help: bool,
}

/// The options as sequences of characters.
pub struct CliModel {
    pub translate_text: Option<Seq<char>>,
    pub show_popup: bool,
    pub popup_file: Option<Seq<char>>,
    pub engine: Option<Seq<char>>,
    pub unknown: Seq<Seq<char>>,
    pub help: bool,
}

pub open spec fn opt_view(o: Option<String>) -> Option<Seq<char>> {
    match o {
        Some(s) => Some(s@),
        None => None,
    }
}

pub open spec fn model_of(p: CliParse) -> CliModel {
    CliModel {
        translate_text: opt_view(p.args.translate_text),
        show_popup: p.args.show_popup,
        popup_file: opt_view(p.args.popup_file),
        engine: opt_view(p.args.engine),
        unknown: p.unknown@.map_values(|s: String| s@),
        help: p.help,
    }
}

/// Nothing read yet.
pub open spec fn empty_model() -> CliModel {
    CliModel {
        translate_text: None,
        show_popup: false,
        popup_file: None,
        engine: None,
        unknown: Seq::empty(),
        help: false,
    }
}

/// Reads `args[i..]` into `m`, one argument at a time: an option that takes
/// a value takes the next argument (when there is one) and the last such
/// value wins; `--help` ends the reading; anything else is not understood.
pub open spec fn parse_from(args: Seq<Seq<char>>, i: int, m: CliModel) -> CliModel
    decreases args.len() - i,
{
    if i < 0 || i >= args.len() {
        m
    } else {
        let a = args[i];
        if a == "--translate"@ || a == "-t"@ {
            if i + 1 < args.len() {
                parse_from(args, i + 2, CliModel { translate_text: Some(args[i + 1]), ..m })
            } else {
                parse_from(args, i + 1, m)
            }
        } else if a == "--popup"@ || a == "-p"@ {
            parse_from(args, i + 1, CliModel { show_popup: true, ..m })
        } else if a == "--popup-file"@ {
            if i + 1 < args.len() {
                parse_from(args, i + 2, CliModel { popup_file: Some(args[i + 1]), ..m })
            } else {
                parse_from(args, i + 1, m)
            }
        } else if a == "--engine"@ || a == "-e"@ {
            if i + 1 < args.len() {
                parse_from(args, i + 2, CliModel { engine: Some(args[i + 1]), ..m })
            } else {
                parse_from(args, i + 1, m)
            }
        } else if a == "--help"@ || a == "-h"@ {
            CliModel { help: true, ..m }
        } else {
            parse_from(args, i + 1, CliModel { unknown: m.unknown.push(a), ..m })
        }
    }
}

/// Law: an argument `--help` or `-h` that is read as an option (no option
/// before it took it as its value) asks for help and ends the reading: what
/// was read before it stays as it was, and nothing after it is read. The two
/// spellings read alike.
pub proof fn law_help_ends_reading(args: Seq<Seq<char>>, i: int, m: CliModel)
    requires
        0 <= i < args.len(),
        args[i] == "--help"@ || args[i] == "-h"@,
    ensures
        parse_from(args, i, m) == (CliModel { help: true, ..m }),
        parse_from(args, i, m).help,
        parse_from(args, i, m).unknown == m.unknown,
        parse_from(args.update(i, "--help"@), i, m) == parse_from(args.update(i, "-h"@), i, m),
{
    reveal_strlit("--help");
    reveal_strlit("-h");
    reveal_strlit("--translate");
    reveal_strlit("-t");
    reveal_strlit("--popup");
    reveal_strlit("-p");
    reveal_strlit("--popup-file");
    reveal_strlit("--engine");
    reveal_strlit("-e");
    let a = args[i];
    assert("--help"@.len() == 6 && "-h"@.len() == 2);
    assert("--translate"@.len() == 11 && "--popup"@.len() == 7 && "--popup-file"@.len() == 12);
    assert("--engine"@.len() == 8);
    assert("-t"@[1] == 't' && "-p"@[1] == 'p' && "-e"@[1] == 'e' && "-h"@[1] == 'h');
    assert(a.len() == 6 || a.len() == 2);
    if a.len() == 2 {
        assert(a[1] == 'h');
    }
    let h = args.update(i, "--help"@);
    let e = args.update(i, "-h"@);
    assert(h[i] == "--help"@ && e[i] == "-h"@);
}

pub open spec fn args_view(args: Seq<String>) -> Seq<Seq<char>> {
    args.map_values(|s: String| s@)
}

/// Reads the command line arguments (the program name left out).
pub fn parse_args(args: &Vec<String>) -> (r: CliParse)
    ensures
        model_of(r) == parse_from(args_view(args@), 0, empty_model()),
{
    let ghost av = args_view(args@);
    let n = args.len();
    let mut r = CliParse {
        args: CliArgs { translate_text: None, show_popup: false, popup_file: None, engine: None },
        unknown: Vec::new(),
        help: false,
    };
    assert(model_of(r).unknown =~= Seq::<Seq<char>>::empty());
    assert(model_of(r) == empty_model());
    let mut i: usize = 0;
    while i < n
        invariant
            n == args@.len() == av.len(),
            av == args_view(args@),
            i <= n,
            !r.help,
            parse_from(av, i as int, model_of(r)) == parse_from(av, 0, empty_model()),
        decreases n - i,
    {
        let a = args[i].as_str();
        let ghost before = model_of(r);
        assert(av[i as int] == a@);
        if text_eq(a, "--translate") || text_eq(a, "-t") {
            if i + 1 < n {
                r.args.translate_text = Some(args[i + 1].clone());
                assert(model_of(r) =~~= CliModel { translate_text: Some(av[i + 1]), ..before });
                i = i + 1;
            }
        } else if text_eq(a, "--popup") || text_eq(a, "-p") {
            r.args.show_popup = true;
            assert(model_of(r) =~~= CliModel { show_popup: true, ..before });
        } else if text_eq(a, "--popup-file") {
            if i + 1 < n {
                r.args.popup_file = Some(args[i + 1].clone());
                assert(model_of(r) =~~= CliModel { popup_file: Some(av[i + 1]), ..before });
                i = i + 1;
            }
        } else if text_eq(a, "--engine") || text_eq(a, "-e") {
            if i + 1 < n {
                r.args.engine = Some(args[i + 1].clone());
                assert(model_of(r) =~~= CliModel { engine: Some(av[i + 1]), ..before });
                i = i + 1;
            }
        } else if text_eq(a, "--help") || text_eq(a, "-h") {
            r.help = true;
            assert(model_of(r) =~~= CliModel { help: true, ..before });
            return r;
        } else {
            let ghost old_unknown = r.unknown@;
            r.unknown.push(args[i].clone());
            assert(r.unknown@ == old_unknown.push(args@[i as int]));
            assert(model_of(r).unknown =~= before.unknown.push(a@));
            assert(model_of(r) == CliModel { unknown: before.unknown.push(a@), ..before });
        }
        i = i + 1;
    }
    r
}

/// The text a pop-up opened with `--popup-file` starts with: the file's
/// trimmed text, or nothing when it could not be read.
pub fn popup_file_text(read: Option<String>) -> (r: String)
    ensures
        read matches Some(t) ==> r@ == trimmed(t@),
        read is None ==> r@.len() == 0,
{
    match read {
        Some(t) => trim(t.as_str()),
        None => String::new(),
    }
}

/// What the program does.
#[derive(Debug)]
pub enum RunMode {
    /// Translate the text, print it and copy it to the clipboard.
    Translate(String),
    /// Show the pop-up with the text of the file at this path.
    PopupFromFile(String),
    /// Show the pop-up.
    Popup,
}

impl CliArgs {
    /// The mode the options call for: `--translate` before `--popup-file`
    /// before the plain pop-up.
    pub fn run_mode(&self) -> (r: RunMode)
        ensures
            self.translate_text matches Some(t) ==> (r matches RunMode::Translate(x) && x@ == t@),
            self.translate_text is None ==> (self.popup_file matches Some(p) ==> (
            r matches RunMode::PopupFromFile(x) && x@ == p@)),
            self.translate_text is None && self.popup_file is None ==> r is Popup,
    {
        match &self.translate_text {
            Some(t) => RunMode::Translate(t.clone()),
            None => match &self.popup_file {
                Some(p) => RunMode::PopupFromFile(p.clone()),
                None => RunMode::Popup,
            },
        }
    }

    /// Applies `--engine` to the settings: the engine named on the command
    /// line replaces the configured one; nothing else changes.
    pub fn apply_engine(&self, config: &mut Config)
        ensures
            self.engine matches Some(e) ==> final(config).engine@ == e@,
            self.engine is None ==> final(config).engine == old(config).engine,
            final(config).deepl_api_key == old(config).deepl_api_key,
            final(config).source_lang == old(config).source_lang,
            final(config).target_lang_ja == old(config).target_lang_ja,
            final(config).target_lang_en == old(config).target_lang_en,
            final(config).log_enabled == old(config).log_enabled,
            final(config).hotkey_popup == old(config).hotkey_popup,
            final(config).hotkey_selected == old(config).hotkey_selected,
    {
        match &self.engine {
            Some(e) => {
                config.engine = e.clone();
            },
            None => {},
        }
    }
}

} // verus!
