use testgen::constraints::check_constraints;
use testgen::generator::Generator;
use testgen::model::{
    BoundsError, ConstraintsError, IOElement, IOFormat, LineElement, MultipleTestcaseConfig,
    ProblemSpec, Scalar,
};

#[test]
fn test_format_scenario() {
    let format: IOFormat = vec![
        IOElement::Line(vec![LineElement::Scalar(Scalar::UInt(2))]),
        IOElement::EmptyLine,
        IOElement::RawLine("Hello".to_string()),
        IOElement::RawLinesBounded(vec!["a".to_string(), "b".to_string(), "c".to_string()], 2),
    ];
    assert_eq!(format.generate().unwrap(), "2\n\nHello\na\nb");
}

#[test]
fn test_empty_format() {
    let format: IOFormat = vec![];
    assert_eq!(format.generate().unwrap(), "");
}

#[test]
fn test_render_idempotent() {
    let format: IOFormat = vec![
        IOElement::Line(vec![
            LineElement::Scalar(Scalar::Bool(false)),
            LineElement::UnboundedVec(vec![Scalar::UInt(7), Scalar::Char('x')]),
        ]),
        IOElement::RawLine("tail".to_string()),
    ];
    let first = format.generate().unwrap();
    let second = format.generate().unwrap();
    assert_eq!(first, second);
    assert_eq!(first, "false 7 x\ntail");
}

#[test]
fn test_raw_lines_bounded_zero() {
    let lines = vec!["a".to_string(), "b".to_string()];
    let result = IOElement::RawLinesBounded(lines, 0).generate().unwrap();
    assert_eq!(result, "");
}

#[test]
fn test_raw_lines_bounded_excess() {
    let lines = vec!["a".to_string(), "b".to_string()];
    let result = IOElement::RawLinesBounded(lines, 3).generate();
    assert_eq!(result, Err(BoundsError));
}

#[test]
fn test_bounded_vec_excess() {
    let element = LineElement::BoundedVec(vec![Scalar::Int(1)], 2);
    assert_eq!(element.generate(), Err(BoundsError));
}

#[test]
fn test_lines_bounded_zero() {
    let cols = vec![vec![Scalar::Int(1)], vec![Scalar::Int(2)]];
    assert_eq!(IOElement::LinesBounded(cols, 0).generate().unwrap(), "");
}

#[test]
fn test_lines_bounded_empty_entry() {
    let cols = vec![vec![Scalar::String(String::new())], vec![Scalar::Int(5)]];
    assert_eq!(IOElement::LinesBounded(cols, 1).generate().unwrap(), " 5");
}

#[test]
fn test_lines_bounded_excess() {
    let cols = vec![vec![Scalar::Int(1), Scalar::Int(2)], vec![Scalar::Int(3)]];
    assert_eq!(IOElement::LinesBounded(cols, 2).generate(), Err(BoundsError));
}

#[test]
fn test_lines_unbounded_unequal_columns() {
    let cols = vec![vec![Scalar::Int(1), Scalar::Int(2)], vec![Scalar::Int(3)]];
    assert_eq!(IOElement::LinesUnbounded(cols).generate(), Err(BoundsError));
    let no_cols: Vec<Vec<Scalar>> = vec![];
    assert_eq!(IOElement::LinesUnbounded(no_cols).generate(), Err(BoundsError));
}

#[test]
fn test_generate_grid() {
    let rows = vec![
        vec![Scalar::Int(1), Scalar::Int(2), Scalar::Int(9)],
        vec![Scalar::Int(3), Scalar::Int(4), Scalar::Int(9)],
    ];
    let result = IOElement::Grid(rows.clone(), 2, 2).generate().unwrap();
    assert_eq!(result, "1 2\n3 4");
    assert_eq!(IOElement::Grid(rows.clone(), 3, 2).generate(), Err(BoundsError));
    assert_eq!(IOElement::Grid(rows, 2, 4).generate(), Err(BoundsError));
}

#[test]
fn test_scalar_extremes() {
    assert_eq!(Scalar::UInt(0).generate().unwrap(), "0");
    assert_eq!(Scalar::UInt(u64::MAX).generate().unwrap(), "18446744073709551615");
    assert_eq!(Scalar::Int(i64::MIN).generate().unwrap(), "-9223372036854775808");
    assert_eq!(Scalar::Int(i64::MAX).generate().unwrap(), "9223372036854775807");
    assert_eq!(Scalar::Bool(false).generate().unwrap(), "false");
}

#[test]
fn test_constraints_all_hold() {
    let preds = vec![
        (true, "t >= 4".to_string()),
        (true, "k >= 1".to_string()),
    ];
    assert!(check_constraints(&preds).is_ok());
    let none: Vec<(bool, String)> = vec![];
    assert!(check_constraints(&none).is_ok());
}

#[test]
fn test_constraints_report_every_failure() {
    let preds = vec![
        (false, "t >= 4".to_string()),
        (true, "k >= 1".to_string()),
        (false, "m <= 9".to_string()),
        (true, "n > 0".to_string()),
    ];
    let err: ConstraintsError = check_constraints(&preds).unwrap_err();
    assert_eq!(err.messages, vec!["t >= 4".to_string(), "m <= 9".to_string()]);
}

struct SampleCase {
    t: u64,
    k: usize,
}

impl ProblemSpec for SampleCase {
    fn input_format(&self) -> IOFormat {
        vec![
            IOElement::Line(vec![LineElement::Scalar(Scalar::UInt(self.t))]),
            IOElement::RawLinesBounded(vec!["x".to_string(), "y".to_string()], self.k),
        ]
    }

    fn output_format(&self) -> IOFormat {
        vec![IOElement::Line(vec![LineElement::Scalar(Scalar::UInt(self.t))])]
    }

    fn constraints(&self) -> Result<(), ConstraintsError> {
        check_constraints(&vec![
            (self.t >= 4, "t >= 4".to_string()),
            (self.k >= 1, "k >= 1".to_string()),
        ])
    }
}

#[test]
fn test_problem_spec_pipeline() {
    let good = SampleCase { t: 5, k: 2 };
    assert!(good.constraints().is_ok());
    assert_eq!(good.input_format().generate().unwrap(), "5\nx\ny");
    assert_eq!(good.output_format().generate().unwrap(), "5");

    let bad = SampleCase { t: 2, k: 0 };
    let err = bad.constraints().unwrap_err();
    assert_eq!(err.messages, vec!["t >= 4".to_string(), "k >= 1".to_string()]);

    let config: Option<MultipleTestcaseConfig> = SampleCase::multiple_test_case_config();
    assert!(config.is_none());
    assert!(SampleCase::multiple_test_case_constraints(10).is_ok());
}
