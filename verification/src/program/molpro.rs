//! Input files for Molpro.
//!
//! An input is made from a template such as
//!
//! ```text
//! memory,1,g
//! gthresh,energy=1.d-12,zero=1.d-22,oneint=1.d-22,twoint=1.d-22;
//! gthresh,optgrad=1.d-8,optstep=1.d-8;
//! nocompress;
//!
//! geometry={
//! {{.geom}}
//! basis={
//! default,cc-pVTZ-f12
//! }
//! set,charge={{.charge}}
//! set,spin=0
//! hf,accuracy=16,energy=1.0d-10
//! {CCSD(T)-F12,thrden=1.0d-8,thrvar=1.0d-10}
//! {optg,grms=1.d-8,srms=1.d-8}
//! ```
//!
//! in which `{{.geom}}` stands for the geometry and `{{.charge}}` for the
//! charge. The brace that opens the geometry is not closed in the
//! template: what closes it comes with the geometry, so that the values
//! of a Z-matrix's parameters can follow the closing brace. An
//! optimisation needs the line with `optg`, which is added when the
//! template lacks it; for a single point the lines with `optg` are taken
//! out.

use crate::program::{Geom, Procedure, Template};
use crate::text::{
    chars_of, contains, decimal, includes, lines, push_all, push_decimal, push_str, split_lines,
    string_of, text_of, views,
};
use crate::trusted::{is_match, regex_compiles, regex_is_match, regex_replace, replace_first};
use vstd::prelude::*;

verus! {

/// Matches a template that asks for an optimisation: `optg` before a
/// comma or at the end, but not `optgrad`.
pub const OPTG: &'static str = "(?i)optg(,|\\s*$)";

/// Matches a line that asks for an optimisation.
pub const OPTG_LINE: &'static str = "(?i)^.*optg(,|\\s*$)";

/// Matches the place of the charge in a template.
pub const CHARGE: &'static str = "\\{\\{.charge\\}\\}";

/// Matches the place of the geometry in a template.
pub const GEOM: &'static str = "\\{\\{.geom\\}\\}";

/// The line that asks for an optimisation.
pub const OPTG_DIRECTIVE: &'static str = "{optg,grms=1.d-8,srms=1.d-8}\n";

/// What closes the geometry before the parameters of a Z-matrix.
pub const CLOSING_BRACE: &'static str = "}\n";

/// The extension of an input file.
pub const INPUT_EXT: &'static str = "inp";

/// The extension of an output file.
pub const OUTPUT_EXT: &'static str = "out";

/// Why an input could not be rendered.
#[derive(Clone, Copy, Debug, PartialEq, Eq, Structural)]
pub enum InputError {
    /// A pattern that the rendering searches with does not compile.
    Pattern,
    /// Inputs for frequencies are not made.
    Frequencies,
}

/// The lines `ls`, each with a line feed after it.
pub open spec fn joined(ls: Seq<Seq<char>>) -> Seq<char>
    decreases ls.len(),
{
    if ls.len() == 0 {
        Seq::empty()
    } else {
        joined(ls.drop_last()) + ls.last() + seq!['\n']
    }
}

/// Those of the lines `ls` whose flag in `drop` is not set. A line
/// without a flag stays.
pub open spec fn without(ls: Seq<Seq<char>>, drop: Seq<bool>) -> Seq<Seq<char>>
    decreases ls.len(),
{
    if ls.len() == 0 {
        Seq::empty()
    } else if ls.len() <= drop.len() && drop[ls.len() - 1] {
        without(ls.drop_last(), drop)
    } else {
        without(ls.drop_last(), drop).push(ls.last())
    }
}

/// For each of the lines `ls`, whether it asks for an optimisation.
pub open spec fn optg_flags(ls: Seq<Seq<char>>) -> Seq<bool> {
    Seq::new(ls.len(), |i: int| regex_is_match(OPTG_LINE@, ls[i]))
}

/// The index of the first of the lines `ls`, at or after `from`, that
/// gives a parameter its value, which is to say that holds `'='`; the
/// number of lines when there is none.
pub open spec fn first_value(ls: Seq<Seq<char>>, from: int) -> int
    decreases ls.len() - from,
{
    if from < 0 || from >= ls.len() || contains(ls[from], seq!['=']) {
        from
    } else {
        first_value(ls, from + 1)
    }
}

/// The text of a Z-matrix for the input: its lines, with a closing brace
/// on a line of its own before the first line that gives a parameter its
/// value.
pub open spec fn zmat_text(geom: Seq<char>) -> Seq<char> {
    let ls = lines(geom);
    let at = first_value(ls, 0);
    if at >= ls.len() {
        joined(ls)
    } else {
        joined(ls.take(at)) + CLOSING_BRACE@ + joined(ls.skip(at))
    }
}

/// The text of the geometry `geom` for the input.
pub open spec fn geom_text(geom: Geom) -> Seq<char> {
    match geom {
        Geom::Xyz(t) => t@,
        Geom::Zmat(t) => zmat_text(t@),
    }
}

/// The template `header` made fit for the procedure `procedure`, where
/// `found` tells whether the template asks for an optimisation and `drop`
/// tells of each of its lines whether it does. An optimisation gets the
/// line that asks for one unless the template has it. A single point
/// loses the lines that ask for an optimisation if the template has any;
/// what is left then ends with a line feed.
pub open spec fn fitted(header: Seq<char>, procedure: Procedure, found: bool, drop: Seq<bool>) -> Seq<
    char,
> {
    match procedure {
        Procedure::Opt => if found {
            header
        } else {
            header + OPTG_DIRECTIVE@
        },
        Procedure::SinglePt => if found {
            joined(without(lines(header), drop))
        } else {
            header
        },
        Procedure::Freq => header,
    }
}

/// Whether the patterns compile that rendering an input from `header`
/// for `procedure` searches with.
pub open spec fn searchable(header: Seq<char>, procedure: Procedure) -> bool {
    &&& regex_compiles(OPTG@)
    &&& procedure == Procedure::SinglePt && regex_is_match(OPTG@, header) && lines(header).len()
        > 0 ==> regex_compiles(OPTG_LINE@)
    &&& procedure != Procedure::Freq ==> regex_compiles(GEOM@) && regex_compiles(CHARGE@)
}

/// The input for a job: the template `header`, fitted to `procedure`,
/// with the geometry in the first place that is marked for it, and then
/// the charge in the first place that is marked for it.
pub open spec fn input_text(header: Seq<char>, procedure: Procedure, geom: Geom, charge: int) -> Seq<
    char,
> {
    let body = fitted(
        header,
        procedure,
        regex_is_match(OPTG@, header),
        optg_flags(lines(header)),
    );
    let with_geom = regex_replace(GEOM@, body, geom_text(geom));
    regex_replace(CHARGE@, with_geom, decimal(charge))
}

/// Joins those of `lines` whose flag in `drop` is not set, each with a
/// line feed after it.
pub fn drop_lines(lines: &Vec<Vec<char>>, drop: &Vec<bool>) -> (out: Vec<char>)
    ensures
        out@ == joined(without(views(lines@), drop@)),
{
    let mut out: Vec<char> = Vec::new();
    let ghost all = views(lines@);
    let mut i: usize = 0;
    while i < lines.len()
        invariant
            i <= lines.len(),
            all == views(lines@),
            out@ == joined(without(all.take(i as int), drop@)),
        decreases lines.len() - i,
    {
        proof {
            assert(all.take(i + 1).drop_last() == all.take(i as int));
            assert(all.take(i + 1).last() == lines@[i as int]@);
            let kept = without(all.take(i as int), drop@);
            assert(kept.push(lines@[i as int]@).drop_last() == kept);
        }
        if i >= drop.len() || !drop[i] {
            push_all(&mut out, lines[i].as_slice());
            out.push('\n');
        }
        i += 1;
    }
    proof {
        assert(all.take(lines.len() as int) == all);
    }
    out
}

/// Fits the template `header` to `procedure`. `found` tells whether the
/// template asks for an optimisation, and `drop` tells of each of its
/// lines whether it does.
pub fn fit(header: &str, procedure: Procedure, found: bool, drop: &Vec<bool>) -> (body: String)
    ensures
        body@ == fitted(header@, procedure, found, drop@),
{
    match procedure {
        Procedure::Opt => {
            let mut out = chars_of(header);
            if !found {
                push_str(&mut out, OPTG_DIRECTIVE);
            }
            string_of(out.as_slice())
        },
        Procedure::SinglePt => {
            if found {
                let text = chars_of(header);
                let ls = split_lines(text.as_slice());
                string_of(drop_lines(&ls, drop).as_slice())
            } else {
                header.to_owned()
            }
        },
        Procedure::Freq => header.to_owned(),
    }
}

/// Renders the text of a Z-matrix for the input.
pub fn close_geometry(geom: &str) -> (out: String)
    ensures
        out@ == zmat_text(geom@),
{
    let text = chars_of(geom);
    let ls = split_lines(text.as_slice());
    let ghost all = views(ls@);
    let mut equals: Vec<char> = Vec::new();
    equals.push('=');
    assert(equals@ == seq!['=']);
    let mut out: Vec<char> = Vec::new();
    let mut found = false;
    let ghost mut at: int = 0;
    let mut i: usize = 0;
    while i < ls.len()
        invariant
            i <= ls.len(),
            all == views(ls@),
            equals@ == seq!['='],
            !found ==> first_value(all, 0) == first_value(all, i as int),
            found ==> first_value(all, 0) == at && 0 <= at < i,
            out@ == if found {
                joined(all.take(at)) + CLOSING_BRACE@ + joined(all.subrange(at, i as int))
            } else {
                joined(all.take(i as int))
            },
        decreases ls.len() - i,
    {
        let ghost before = out@;
        let ghost line = ls@[i as int]@;
        proof {
            assert(all[i as int] == line);
            assert(all.take(i + 1).drop_last() == all.take(i as int));
            assert(all.take(i + 1).last() == line);
        }
        if !found && includes(ls[i].as_slice(), equals.as_slice()) {
            found = true;
            push_str(&mut out, CLOSING_BRACE);
            proof {
                at = i as int;
                assert(all.subrange(at, i as int) == Seq::<Seq<char>>::empty());
            }
        }
        proof {
            if found {
                assert(all.subrange(at, i + 1).drop_last() == all.subrange(at, i as int));
                assert(all.subrange(at, i + 1).last() == all[i as int]);
            }
        }
        push_all(&mut out, ls[i].as_slice());
        out.push('\n');
        proof {
            if found {
                let grown = joined(all.subrange(at, i as int));
                assert(joined(all.subrange(at, i + 1)) == grown + line + seq!['\n']);
                assert(out@ =~= joined(all.take(at)) + CLOSING_BRACE@ + (grown + line + seq![
                    '\n',
                ]));
            } else {
                assert(out@ =~= before + line + seq!['\n']);
            }
        }
        i += 1;
    }
    proof {
        assert(all.take(ls.len() as int) == all);
        if found {
            assert(all.subrange(at, ls.len() as int) == all.skip(at));
        }
    }
    string_of(out.as_slice())
}

/// A Molpro job.
#[derive(Debug)]
pub struct Molpro {
    filename: String,
    template: Template,
    charge: isize,
    geom: Geom,
}

impl Molpro {
    /// The path of the job's files, without an extension.
    pub closed spec fn name(&self) -> Seq<char> {
        self.filename@
    }

    /// The template of the job's input.
    pub closed spec fn spec_template(&self) -> &Template {
        &self.template
    }

    /// The charge of the molecule.
    pub closed spec fn spec_charge(&self) -> isize {
        self.charge
    }

    /// The geometry of the molecule.
    pub closed spec fn spec_geom(&self) -> &Geom {
        &self.geom
    }

    /// The job that computes on the molecule of geometry `geom` and
    /// charge `charge`, with an input made from `template`, in files
    /// whose path without the extension is `filename`.
    pub fn new(filename: String, template: Template, charge: isize, geom: Geom) -> (job: Self)
        ensures
            job.name() == filename@,
            *job.template() == template,
            job.charge() == charge,
            *job.geom() == geom,
    {
        Self { filename, template, charge, geom }
    }

    /// The path of the job's files, without an extension.
    pub fn filename(&self) -> (name: String)
        ensures
            name@ == self.name(),
    {
        self.filename.clone()
    }

    /// Gives the job's files another path.
    pub fn set_filename(&mut self, filename: &str)
        ensures
            final(self).name() == filename@,
            *final(self).template() == *old(self).template(),
            final(self).charge() == old(self).charge(),
            *final(self).geom() == *old(self).geom(),
    {
        self.filename = filename.to_owned();
    }

    /// The template of the job's input.
    #[verifier::when_used_as_spec(spec_template)]
    pub fn template(&self) -> (t: &Template)
        ensures
            t == self.template(),
    {
        &self.template
    }

    /// The extension of an input file: [`INPUT_EXT`].
    pub fn extension(&self) -> (ext: String)
        ensures
            ext@ == INPUT_EXT@,
    {
        INPUT_EXT.to_owned()
    }

    /// The charge of the molecule.
    #[verifier::when_used_as_spec(spec_charge)]
    pub fn charge(&self) -> (c: isize)
        ensures
            c == self.charge(),
    {
        self.charge
    }

    /// The geometry of the molecule.
    #[verifier::when_used_as_spec(spec_geom)]
    pub fn geom(&self) -> (g: &Geom)
        ensures
            g == self.geom(),
    {
        &self.geom
    }

    /// The path of the job's input file.
    pub fn input_path(&self) -> (path: String)
        ensures
            path@ == self.name() + seq!['.'] + INPUT_EXT@,
    {
        let mut out = chars_of(self.filename.as_str());
        out.push('.');
        push_str(&mut out, INPUT_EXT);
        assert(out@ =~= self.name() + seq!['.'] + INPUT_EXT@);
        string_of(out.as_slice())
    }

    /// Renders the job's input for `procedure`. Inputs for frequencies
    /// are not made: asking for one is an error.
    pub fn write_input(&self, procedure: Procedure) -> (r: Result<String, InputError>)
        ensures
            r is Ok <==> searchable(self.template().header@, procedure) && procedure
                != Procedure::Freq,
            r == Err::<String, InputError>(InputError::Frequencies) <==> searchable(
                self.template().header@,
                procedure,
            ) && procedure == Procedure::Freq,
            r matches Ok(body) ==> body@ == input_text(
                self.template().header@,
                procedure,
                *self.geom(),
                self.charge() as int,
            ),
            r == Err::<String, InputError>(InputError::Pattern) <==> !searchable(
                self.template().header@,
                procedure,
            ),
    {
        let header = self.template.header.as_str();
        let found = match is_match(OPTG, header) {
            Some(found) => found,
            None => {
                return Err(InputError::Pattern);
            },
        };
        if let Procedure::Freq = procedure {
            return Err(InputError::Frequencies);
        }
        let mut drop: Vec<bool> = Vec::new();
        if found {
            if let Procedure::SinglePt = procedure {
                let text = chars_of(header);
                let ls = split_lines(text.as_slice());
                let ghost all = views(ls@);
                let mut i: usize = 0;
                while i < ls.len()
                    invariant
                        i <= ls.len(),
                        all == views(ls@),
                        all == lines(self.template.header@),
                        procedure == Procedure::SinglePt,
                        regex_compiles(OPTG@),
                        regex_is_match(OPTG@, self.template.header@),
                        i > 0 ==> regex_compiles(OPTG_LINE@),
                        drop@ == optg_flags(all).take(i as int),
                    decreases ls.len() - i,
                {
                    let line = string_of(ls[i].as_slice());
                    match is_match(OPTG_LINE, line.as_str()) {
                        Some(flag) => {
                            assert(flag == optg_flags(all)[i as int]);
                            drop.push(flag);
                        },
                        None => {
                            return Err(InputError::Pattern);
                        },
                    }
                    i += 1;
                }
                assert(optg_flags(all).take(ls.len() as int) == optg_flags(all));
            }
        }
        let body = fit(header, procedure, found, &drop);
        let geom = match &self.geom {
            Geom::Xyz(t) => t.clone(),
            Geom::Zmat(t) => close_geometry(t.as_str()),
        };
        let mut charge: Vec<char> = Vec::new();
        push_decimal(&mut charge, self.charge as i128);
        let charge = string_of(charge.as_slice());
        let with_geom = match replace_first(GEOM, body.as_str(), geom.as_str()) {
            Some(text) => text,
            None => {
                return Err(InputError::Pattern);
            },
        };
        match replace_first(CHARGE, with_geom.as_str(), charge.as_str()) {
            Some(text) => Ok(text),
            None => Err(InputError::Pattern),
        }
    }

    /// The files that the job leaves: its input and its output.
    pub fn associated_files(&self) -> (files: Vec<String>)
        ensures
            files.deep_view() == seq![
                self.name() + seq!['.'] + INPUT_EXT@,
                self.name() + seq!['.'] + OUTPUT_EXT@,
            ],
    {
        let mut output = chars_of(self.filename.as_str());
        output.push('.');
        push_str(&mut output, OUTPUT_EXT);
        let input = self.input_path();
        let output = string_of(output.as_slice());
        let mut files: Vec<String> = Vec::new();
        files.push(input);
        files.push(output);
        assert(files.deep_view()[0] == input@);
        assert(files.deep_view()[1] == output@);
        assert(output@ =~= self.name() + seq!['.'] + OUTPUT_EXT@);
        assert(files.deep_view() =~= seq![
            self.name() + seq!['.'] + INPUT_EXT@,
            self.name() + seq!['.'] + OUTPUT_EXT@,
        ]);
        files
    }
}

} // verus!
