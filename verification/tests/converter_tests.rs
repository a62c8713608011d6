use ptui::config::{ChafaConfig, ConverterConfig, Jp2aConfig, PTuiConfig};
use ptui::converter::{
    availability_probe, check_converter_availability, create_converter, required_program,
    AsciiConverter, ChafaConverter, Converter, GraphicalConverter, Jp2aConverter, ProcessOutcome,
};

#[test]
fn test_chafa_converter_creation() {
    let config = ChafaConfig {
        format: "ansi".to_string(),
        colors: "full".to_string(),
    };
    let converter = ChafaConverter::new(config);
    assert_eq!(converter.get_name(), "chafa");
}

#[test]
fn test_jp2a_converter_creation() {
    let config = Jp2aConfig {
        colors: true,
        invert: false,
        dither: "none".to_string(),
        chars: None,
    };
    let converter = Jp2aConverter::new(config);
    assert_eq!(converter.get_name(), "jp2a");
}

#[test]
fn test_create_chafa_converter() {
    let config = PTuiConfig {
        converter: ConverterConfig {
            selected: "chafa".to_string(),
            ..Default::default()
        },
        ..Default::default()
    };
    let converter = create_converter(&config);
    assert_eq!(converter.get_name(), "chafa");
}

#[test]
fn test_create_jp2a_converter() {
    let config = PTuiConfig {
        converter: ConverterConfig {
            selected: "jp2a".to_string(),
            ..Default::default()
        },
        ..Default::default()
    };
    let converter = create_converter(&config);
    assert_eq!(converter.get_name(), "jp2a");
}

#[test]
fn test_create_default_converter_fallback() {
    let config = PTuiConfig {
        converter: ConverterConfig {
            selected: "unknown".to_string(),
            ..Default::default()
        },
        ..Default::default()
    };
    let converter = create_converter(&config);
    assert_eq!(converter.get_name(), "chafa");
}

#[test]
fn test_create_graphical_converter() {
    let config = PTuiConfig {
        converter: ConverterConfig {
            selected: "graphical".to_string(),
            ..Default::default()
        },
        ..Default::default()
    };
    let converter = create_converter(&config);
    assert_eq!(converter.get_name(), "graphical");
    assert!(converter.is_graphical());
    assert!(!converter.supports_transitions());
    assert!(matches!(converter, Converter::Graphical(_)));
}

#[test]
fn test_check_converter_availability_unknown() {
    let result = check_converter_availability("unknown_converter", None);
    assert!(result.is_err());
    assert!(result.unwrap_err().contains("Unknown converter"));
}

#[test]
fn test_check_converter_availability_verdicts() {
    assert_eq!(check_converter_availability("chafa", Some(true)), Ok(()));
    assert_eq!(check_converter_availability("jp2a", Some(true)), Ok(()));
    assert_eq!(
        check_converter_availability("chafa", Some(false)),
        Err("chafa command failed".to_string())
    );
    assert_eq!(
        check_converter_availability("jp2a", None),
        Err("jp2a not found in PATH".to_string())
    );
    assert_eq!(
        check_converter_availability("graphical", Some(true)),
        Err("Unknown converter: graphical".to_string())
    );
}

#[test]
fn test_availability_probe_commands() {
    let probe = availability_probe("chafa").unwrap();
    assert_eq!(probe.program, "chafa");
    assert_eq!(probe.args, vec!["--version".to_string()]);
    let probe = availability_probe("jp2a").unwrap();
    assert_eq!(probe.program, "jp2a");
    assert!(availability_probe("convert").is_none());
}

#[test]
fn test_chafa_config_options() {
    let config = ChafaConfig {
        format: "sixel".to_string(),
        colors: "16".to_string(),
    };
    let converter = ChafaConverter::new(config);

    assert_eq!(converter.config.format, "sixel");
    assert_eq!(converter.config.colors, "16");
}

#[test]
fn test_jp2a_config_options() {
    let config = Jp2aConfig {
        colors: false,
        invert: true,
        dither: "floyd".to_string(),
        chars: Some("ascii".to_string()),
    };
    let converter = Jp2aConverter::new(config);

    assert!(!converter.config.colors);
    assert!(converter.config.invert);
    assert_eq!(converter.config.dither, "floyd");
    assert_eq!(converter.config.chars, Some("ascii".to_string()));
}

#[test]
fn test_chafa_convert_image_args() {
    let config = ChafaConfig {
        format: "ansi".to_string(),
        colors: "256".to_string(),
    };
    let converter = ChafaConverter::new(config);

    let command = converter.command("test.jpg", 80, 24);

    assert_eq!(command.program, "chafa");
    assert_eq!(
        command.args,
        vec!["-f", "ansi", "-c", "256", "--size", "80x24", "test.jpg"]
    );
}

#[test]
fn test_jp2a_convert_image_args() {
    let config = Jp2aConfig {
        colors: true,
        invert: true,
        dither: "none".to_string(),
        chars: Some("@%#*".to_string()),
    };
    let converter = Jp2aConverter::new(config);

    let command = converter.command("test.jpg", 80, 24);

    assert_eq!(command.program, "jp2a");
    assert_eq!(
        command.args,
        vec!["--size=80x24", "--colors", "--invert", "--chars=@%#*", "test.jpg"]
    );
}

#[test]
fn test_jp2a_command_without_options() {
    let config = Jp2aConfig {
        colors: false,
        invert: false,
        dither: "none".to_string(),
        chars: None,
    };
    let converter = Jp2aConverter::new(config);
    let command = converter.command("/pics/a b.png", 0, 65535);
    assert_eq!(command.args, vec!["--size=0x65535", "/pics/a b.png"]);
}

#[test]
fn test_graphical_converter_falls_back_to_chafa_command() {
    let converter = GraphicalConverter::new(ChafaConfig {
        format: "symbols".to_string(),
        colors: "16".to_string(),
    });
    let command = converter.command("x.png", 10, 5);
    assert_eq!(command.program, "chafa");
    assert_eq!(
        command.args,
        vec!["-f", "symbols", "-c", "16", "--size", "10x5", "x.png"]
    );
}

#[test]
fn test_interpret_success_returns_stdout() {
    let converter = ChafaConverter::new(ChafaConfig::default());
    let outcome = ProcessOutcome::Exited {
        success: true,
        stdout: "art".to_string(),
        stderr: "ignored".to_string(),
    };
    assert_eq!(converter.interpret(&outcome), Ok("art".to_string()));
}

#[test]
fn test_interpret_failure_messages() {
    let chafa = ChafaConverter::new(ChafaConfig::default());
    let jp2a = Jp2aConverter::new(Jp2aConfig::default());
    let failed = ProcessOutcome::Exited {
        success: false,
        stdout: "partial".to_string(),
        stderr: "bad file".to_string(),
    };
    let missing = ProcessOutcome::NotStarted("No such file or directory".to_string());
    assert_eq!(chafa.interpret(&failed), Err("Chafa error: bad file".to_string()));
    assert_eq!(jp2a.interpret(&failed), Err("jp2a error: bad file".to_string()));
    assert_eq!(
        chafa.interpret(&missing),
        Err("Failed to execute chafa: No such file or directory".to_string())
    );
    assert_eq!(
        jp2a.interpret(&missing),
        Err("Failed to execute jp2a: No such file or directory".to_string())
    );
}

#[test]
fn test_supports_transitions_by_converter() {
    let chafa = ChafaConverter::new(ChafaConfig::default());
    let jp2a = Jp2aConverter::new(Jp2aConfig::default());
    assert!(!chafa.supports_transitions());
    assert!(jp2a.supports_transitions());
    assert!(!chafa.is_graphical());
    assert!(!jp2a.is_graphical());
}

#[test]
fn test_config_and_converter_integration() {
    let config = PTuiConfig::default();
    let converter = create_converter(&config);

    assert_eq!(converter.get_name(), "chafa");

    let jp2a_config = PTuiConfig {
        converter: ConverterConfig {
            selected: "jp2a".to_string(),
            ..Default::default()
        },
        ..Default::default()
    };

    let jp2a_converter = create_converter(&jp2a_config);
    assert_eq!(jp2a_converter.get_name(), "jp2a");
}

#[test]
fn test_required_program() {
    assert_eq!(required_program("chafa"), "chafa");
    assert_eq!(required_program("jp2a"), "jp2a");
    assert_eq!(required_program("graphical"), "chafa");
    assert_eq!(required_program("other"), "other");
}

#[test]
fn test_converter_config_variants() {
    for selected in ["chafa", "jp2a", "unknown", "", "Jp2a", "jp2a "] {
        for (jp2a_colors, jp2a_invert) in [(true, false), (false, true)] {
            let config = PTuiConfig {
                converter: ConverterConfig {
                    chafa: ChafaConfig {
                        format: "symbols".to_string(),
                        colors: "256".to_string(),
                    },
                    jp2a: Jp2aConfig {
                        colors: jp2a_colors,
                        invert: jp2a_invert,
                        dither: "none".to_string(),
                        chars: None,
                    },
                    selected: selected.to_string(),
                    ..Default::default()
                },
                ..Default::default()
            };

            let converter = create_converter(&config);

            match selected {
                "jp2a" => assert_eq!(converter.get_name(), "jp2a"),
                _ => assert_eq!(converter.get_name(), "chafa"),
            }
        }
    }
}
