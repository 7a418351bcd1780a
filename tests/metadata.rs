use anchor_lang::metadata::{FundedIdlSubcommand, IdlCommand, IdlSubcommandKind, UnfundedIdlSubcommand};

#[test]
fn funded_write_arguments() {
    let cmd = FundedIdlSubcommand::Write {
        program_id: "Prog".to_string(),
        idl_filepath: "idl.json".to_string(),
        non_canonical: true,
    };
    assert_eq!(
        cmd.args("key.json", Some("5")),
        vec!["--keypair", "key.json", "--priority-fees", "5", "idl", "Prog", "idl.json", "--non-canonical"]
    );
}

#[test]
fn funded_command_renders_fee_in_decimal() {
    let c = IdlCommand::funded(
        "http://localhost:8899".to_string(),
        "key.json".to_string(),
        Some(1200),
        FundedIdlSubcommand::Close { program_id: "Prog".to_string(), seed: "idl".to_string() },
    );
    assert_eq!(
        c.command_args(),
        vec![
            "@solana-program/program-metadata@0.5.1",
            "--rpc",
            "http://localhost:8899",
            "--keypair",
            "key.json",
            "--priority-fees",
            "1200",
            "close",
            "idl",
            "Prog"
        ]
    );
}

#[test]
fn funded_buffer_commands() {
    let k = IdlSubcommandKind::Funded {
        keypair_path: "k".to_string(),
        priority_fees_str: None,
        cmd: FundedIdlSubcommand::WriteBuffer {
            program_id: "P".to_string(),
            buffer: "B".to_string(),
            seed: "S".to_string(),
            close_buffer: true,
        },
    };
    assert_eq!(k.args(), vec!["--keypair", "k", "write", "S", "P", "--buffer", "B", "--close-buffer"]);
    let c = FundedIdlSubcommand::CreateBuffer { filepath: "f".to_string() };
    assert_eq!(c.args("k", None), vec!["--keypair", "k", "create-buffer", "f"]);
    let s = FundedIdlSubcommand::SetBufferAuthority { buffer: "B".to_string(), new_authority: "A".to_string() };
    assert_eq!(s.args("k", None), vec!["--keypair", "k", "set-buffer-authority", "B", "--new-authority", "A"]);
}

#[test]
fn unfunded_fetch_arguments() {
    let f = UnfundedIdlSubcommand::Fetch {
        program_id: "P".to_string(),
        out: Some("out.json".to_string()),
        non_canonical: false,
    };
    assert_eq!(f.args(), vec!["fetch", "idl", "P", "-o", "out.json"]);
    let c = IdlCommand::unfunded("url".to_string(), UnfundedIdlSubcommand::Fetch {
        program_id: "P".to_string(),
        out: None,
        non_canonical: true,
    });
    assert_eq!(c.command_args(), vec!["@solana-program/program-metadata@0.5.1", "--rpc", "url", "fetch", "idl", "P", "--non-canonical"]);
}
