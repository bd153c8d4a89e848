use jobqueue::program::molpro::{
    close_geometry, drop_lines, fit, InputError, Molpro, OPTG_DIRECTIVE,
};
use jobqueue::program::{Geom, Procedure, Template};

const HEADER: &str = "memory,1,g
gthresh,energy=1.d-12,zero=1.d-22,oneint=1.d-22,twoint=1.d-22;
gthresh,optgrad=1.d-8,optstep=1.d-8;
nocompress;

geometry={
{{.geom}}
basis={
default,cc-pVTZ-f12
}
set,charge={{.charge}}
set,spin=0
hf,accuracy=16,energy=1.0d-10
{CCSD(T)-F12,thrden=1.0d-8,thrvar=1.0d-10}
{optg,grms=1.d-8,srms=1.d-8}
";

const ZMAT: &str = "H
O 1 OH
H 2 OH 1 HOH

OH = 1.0
HOH = 109.5";

const ZMAT_CLOSED: &str = "H
O 1 OH
H 2 OH 1 HOH

}
OH = 1.0
HOH = 109.5
";

fn job(header: &str, charge: isize, geom: Geom) -> Molpro {
    Molpro::new(String::from("opt/job.00000"), Template { header: String::from(header) }, charge, geom)
}

fn chars(lines: &[&str]) -> Vec<Vec<char>> {
    lines.iter().map(|l| l.chars().collect()).collect()
}

#[test]
fn a_job_keeps_what_it_was_made_with() {
    let mut j = job("h", -2, Geom::Xyz(String::from("H 0 0 0")));
    assert_eq!(j.filename(), "opt/job.00000");
    assert_eq!(j.template().header, "h");
    assert_eq!(j.charge(), -2);
    assert_eq!(j.extension(), "inp");
    assert_eq!(j.input_path(), "opt/job.00000.inp");
    assert_eq!(j.associated_files(), vec!["opt/job.00000.inp", "opt/job.00000.out"]);
    j.set_filename("pts/job.7");
    assert_eq!(j.filename(), "pts/job.7");
    assert_eq!(j.associated_files(), vec!["pts/job.7.inp", "pts/job.7.out"]);
    assert_eq!(j.charge(), -2);
}

#[test]
fn an_optimisation_keeps_a_template_that_asks_for_one() {
    let j = job(HEADER, 0, Geom::Zmat(String::from(ZMAT)));
    let expected = HEADER.replace("{{.geom}}", ZMAT_CLOSED).replace("{{.charge}}", "0");
    assert_eq!(j.write_input(Procedure::Opt).unwrap(), expected);
}

#[test]
fn an_optimisation_adds_the_line_that_asks_for_one() {
    let header = HEADER.replace("{optg,grms=1.d-8,srms=1.d-8}\n", "");
    let j = job(&header, 1, Geom::Xyz(String::from("He 0.0 0.0 0.0\n}")));
    let expected = format!(
        "{}{{optg,grms=1.d-8,srms=1.d-8}}\n",
        header.replace("{{.geom}}", "He 0.0 0.0 0.0\n}").replace("{{.charge}}", "1")
    );
    assert_eq!(j.write_input(Procedure::Opt).unwrap(), expected);
    assert_eq!(OPTG_DIRECTIVE, "{optg,grms=1.d-8,srms=1.d-8}\n");
}

#[test]
fn a_single_point_loses_the_lines_that_ask_for_an_optimisation() {
    let j = job(HEADER, -1, Geom::Xyz(String::from("He 0.0 0.0 0.0\n}")));
    let expected = HEADER
        .replace("{optg,grms=1.d-8,srms=1.d-8}\n", "")
        .replace("{{.geom}}", "He 0.0 0.0 0.0\n}")
        .replace("{{.charge}}", "-1");
    let got = j.write_input(Procedure::SinglePt).unwrap();
    assert_eq!(got, expected);
    assert!(got.contains("gthresh,optgrad=1.d-8,optstep=1.d-8;\n"));
}

#[test]
fn a_single_point_keeps_a_template_without_optimisation_as_it_is() {
    let j = job("no final line feed {{.charge}}", 3, Geom::Xyz(String::new()));
    assert_eq!(j.write_input(Procedure::SinglePt).unwrap(), "no final line feed 3");
}

#[test]
fn an_optimisation_is_asked_for_in_any_case_and_at_the_end() {
    let j = job("a\nOPTG  \n", 0, Geom::Xyz(String::new()));
    assert_eq!(j.write_input(Procedure::Opt).unwrap(), "a\nOPTG  \n");
    assert_eq!(j.write_input(Procedure::SinglePt).unwrap(), "a\n");
    let j = job("x,optg\ny\n", 0, Geom::Xyz(String::new()));
    assert_eq!(j.write_input(Procedure::Opt).unwrap(), "x,optg\ny\n{optg,grms=1.d-8,srms=1.d-8}\n");
    assert_eq!(j.write_input(Procedure::SinglePt).unwrap(), "x,optg\ny\n");
    let j = job("{Optg,grms=1}\r\ny", 0, Geom::Xyz(String::new()));
    assert_eq!(j.write_input(Procedure::SinglePt).unwrap(), "y\n");
}

#[test]
fn only_the_first_place_of_each_kind_is_filled() {
    let j = job("{{.geom}} {{.geom}} {{.charge}} {{.charge}}", 5, Geom::Xyz(String::from("G")));
    assert_eq!(j.write_input(Procedure::SinglePt).unwrap(), "G {{.geom}} 5 {{.charge}}");
}

#[test]
fn any_character_may_stand_before_the_name_of_a_place() {
    let j = job("{{xgeom}} {{-charge}}", 5, Geom::Xyz(String::from("G")));
    assert_eq!(j.write_input(Procedure::SinglePt).unwrap(), "G 5");
}

#[test]
fn a_dollar_in_the_geometry_refers_to_a_group() {
    let j = job("<{{.geom}}>", 0, Geom::Xyz(String::from("a${0}b$$c$1d ${x}e")));
    assert_eq!(j.write_input(Procedure::SinglePt).unwrap(), "<a{{.geom}}b$c e>");
    let j = job("<{{.geom}}>", 0, Geom::Xyz(String::from("a$0b$$c")));
    assert_eq!(j.write_input(Procedure::SinglePt).unwrap(), "<a$c>");
}

#[test]
fn inputs_for_frequencies_are_not_made() {
    let j = job(HEADER, 0, Geom::Xyz(String::new()));
    assert_eq!(j.write_input(Procedure::Freq), Err(InputError::Frequencies));
}

#[test]
fn a_z_matrix_is_closed_before_its_parameters() {
    assert_eq!(close_geometry(ZMAT), ZMAT_CLOSED);
    assert_eq!(close_geometry("H\nH 1 r\n"), "H\nH 1 r\n");
    assert_eq!(close_geometry("r = 1\ns = 2"), "}\nr = 1\ns = 2\n");
    assert_eq!(close_geometry(""), "");
    assert_eq!(close_geometry("a\r\nb=1\r\n"), "a\n}\nb=1\n");
}

#[test]
fn lines_are_dropped_by_their_flags() {
    let ls = chars(&["a", "b", "", "d"]);
    assert_eq!(drop_lines(&ls, &vec![false, true, false, false]).iter().collect::<String>(), "a\n\nd\n");
    assert_eq!(drop_lines(&ls, &vec![true, true, true, true]).iter().collect::<String>(), "");
    assert_eq!(drop_lines(&ls, &vec![false, false, false, false]).iter().collect::<String>(), "a\nb\n\nd\n");
    assert_eq!(drop_lines(&Vec::new(), &Vec::new()).iter().collect::<String>(), "");
}

#[test]
fn a_template_is_fitted_to_the_procedure() {
    let none = Vec::new();
    assert_eq!(fit("h\n", Procedure::Opt, false, &none), "h\n{optg,grms=1.d-8,srms=1.d-8}\n");
    assert_eq!(fit("h\n", Procedure::Opt, true, &none), "h\n");
    assert_eq!(fit("h", Procedure::SinglePt, false, &none), "h");
    assert_eq!(fit("h\nk", Procedure::SinglePt, true, &vec![true, false]), "k\n");
    assert_eq!(fit("h", Procedure::Freq, true, &none), "h");
}
