//! Command lines for the program-metadata client that stores program IDLs.

use vstd::prelude::*;
use vstd::string::to_string_from_display_ensures;

verus! {

/// The package, with its version, that runs the commands.
pub const PMP_CLIENT_PACKAGE: &'static str = "@solana-program/program-metadata@0.5.1";

/// A metadata command together with the cluster it talks to.
pub struct IdlCommand {
    rpc_url: String,
    subcommand: IdlSubcommandKind,
}

/// A metadata command, with what a write needs to pay for itself.
pub enum IdlSubcommandKind {
    /// Commands that write, paid for by a keypair.
    Funded { keypair_path: String, priority_fees_str: Option<String>, cmd: FundedIdlSubcommand },
    /// Read-only commands.
    Unfunded(UnfundedIdlSubcommand),
}

/// Commands that write.
pub enum FundedIdlSubcommand {
    Write { program_id: String, idl_filepath: String, non_canonical: bool },
    Close { program_id: String, seed: String },
    CreateBuffer { filepath: String },
    SetBufferAuthority { buffer: String, new_authority: String },
    WriteBuffer { program_id: String, buffer: String, seed: String, close_buffer: bool },
}

/// Read-only commands.
pub enum UnfundedIdlSubcommand {
    Fetch { program_id: String, out: Option<String>, non_canonical: bool },
}

/// The arguments of a write command, after the payer options.
pub open spec fn funded_tail(cmd: FundedIdlSubcommand) -> Seq<Seq<char>> {
    match cmd {
        FundedIdlSubcommand::Write { program_id, idl_filepath, non_canonical } => seq![
            "idl"@,
            program_id@,
            idl_filepath@,
        ] + if non_canonical {
            seq!["--non-canonical"@]
        } else {
            Seq::empty()
        },
        FundedIdlSubcommand::Close { program_id, seed } => seq!["close"@, seed@, program_id@],
        FundedIdlSubcommand::CreateBuffer { filepath } => seq!["create-buffer"@, filepath@],
        FundedIdlSubcommand::SetBufferAuthority { buffer, new_authority } => seq![
            "set-buffer-authority"@,
            buffer@,
            "--new-authority"@,
            new_authority@,
        ],
        FundedIdlSubcommand::WriteBuffer { program_id, buffer, seed, close_buffer } => seq![
            "write"@,
            seed@,
            program_id@,
            "--buffer"@,
            buffer@,
        ] + if close_buffer {
            seq!["--close-buffer"@]
        } else {
            Seq::empty()
        },
    }
}

/// The arguments of a write command: payer, fees if any, then the command.
pub open spec fn funded_args(
    cmd: FundedIdlSubcommand,
    keypair_path: Seq<char>,
    priority_fees: Option<Seq<char>>,
) -> Seq<Seq<char>> {
    seq!["--keypair"@, keypair_path] + match priority_fees {
        Some(f) => seq!["--priority-fees"@, f],
        None => Seq::empty(),
    } + funded_tail(cmd)
}

/// The arguments of a read-only command.
pub open spec fn unfunded_args(cmd: UnfundedIdlSubcommand) -> Seq<Seq<char>> {
    match cmd {
        UnfundedIdlSubcommand::Fetch { program_id, out, non_canonical } => seq![
            "fetch"@,
            "idl"@,
            program_id@,
        ] + match out {
            Some(o) => seq!["-o"@, o@],
            None => Seq::empty(),
        } + if non_canonical {
            seq!["--non-canonical"@]
        } else {
            Seq::empty()
        },
    }
}

/// The arguments of a command of either kind.
pub open spec fn kind_args(kind: IdlSubcommandKind) -> Seq<Seq<char>> {
    match kind {
        IdlSubcommandKind::Funded { keypair_path, priority_fees_str, cmd } => funded_args(
            cmd,
            keypair_path@,
            match priority_fees_str {
                Some(f) => Some(f@),
                None => None,
            },
        ),
        IdlSubcommandKind::Unfunded(cmd) => unfunded_args(cmd),
    }
}

/// The views of a list of string slices.
pub open spec fn strs_view(v: Seq<&str>) -> Seq<Seq<char>> {
    v.map_values(|s: &str| s@)
}

impl FundedIdlSubcommand {
    /// The command line of this write command, paid for by `keypair_path`.
    pub fn args<'a>(&'a self, keypair_path: &'a str, priority_fees: Option<&'a str>) -> (r: Vec<&'a str>)
        ensures
            strs_view(r@) == funded_args(
                *self,
                keypair_path@,
                match priority_fees {
                    Some(f) => Some(f@),
                    None => None,
                },
            ),
    {
        let mut args: Vec<&str> = Vec::new();
        args.push("--keypair");
        args.push(keypair_path);
        match priority_fees {
            Some(fees) => {
                args.push("--priority-fees");
                args.push(fees);
            },
            None => {},
        }
        let ghost head = strs_view(args@);
        match self {
            FundedIdlSubcommand::Write { program_id, idl_filepath, non_canonical } => {
                args.push("idl");
                args.push(program_id.as_str());
                args.push(idl_filepath.as_str());
                if *non_canonical {
                    args.push("--non-canonical");
                }
            },
            FundedIdlSubcommand::Close { program_id, seed } => {
                args.push("close");
                args.push(seed.as_str());
                args.push(program_id.as_str());
            },
            FundedIdlSubcommand::CreateBuffer { filepath } => {
                args.push("create-buffer");
                args.push(filepath.as_str());
            },
            FundedIdlSubcommand::SetBufferAuthority { buffer, new_authority } => {
                args.push("set-buffer-authority");
                args.push(buffer.as_str());
                args.push("--new-authority");
                args.push(new_authority.as_str());
            },
            FundedIdlSubcommand::WriteBuffer { program_id, buffer, seed, close_buffer } => {
                args.push("write");
                args.push(seed.as_str());
                args.push(program_id.as_str());
                args.push("--buffer");
                args.push(buffer.as_str());
                if *close_buffer {
                    args.push("--close-buffer");
                }
            },
        }
        assert(strs_view(args@) =~= funded_args(
            *self,
            keypair_path@,
            match priority_fees {
                Some(f) => Some(f@),
                None => None,
            },
        ));
        args
    }
}

impl UnfundedIdlSubcommand {
    /// The command line of this read-only command.
    pub fn args(&self) -> (r: Vec<&str>)
        ensures
            strs_view(r@) == unfunded_args(*self),
    {
        let mut args: Vec<&str> = Vec::new();
        match self {
            UnfundedIdlSubcommand::Fetch { program_id, out, non_canonical } => {
                args.push("fetch");
                args.push("idl");
                args.push(program_id.as_str());
                match out {
                    Some(o) => {
                        args.push("-o");
                        args.push(o.as_str());
                    },
                    None => {},
                }
                if *non_canonical {
                    args.push("--non-canonical");
                }
            },
        }
        assert(strs_view(args@) =~= unfunded_args(*self));
        args
    }
}

impl IdlSubcommandKind {
    /// The command line of this command, without the client and cluster.
    pub fn args(&self) -> (r: Vec<&str>)
        ensures
            strs_view(r@) == kind_args(*self),
    {
        match self {
            IdlSubcommandKind::Funded { keypair_path, priority_fees_str, cmd } => {
                let fees = match priority_fees_str {
                    Some(f) => Some(f.as_str()),
                    None => None,
                };
                cmd.args(keypair_path.as_str(), fees)
            },
            IdlSubcommandKind::Unfunded(cmd) => cmd.args(),
        }
    }
}

impl IdlCommand {
    /// The cluster address.
    pub closed spec fn rpc_url_spec(&self) -> Seq<char> {
        self.rpc_url@
    }

    /// The command.
    pub closed spec fn subcommand_spec(&self) -> IdlSubcommandKind {
        self.subcommand
    }

    /// A write command paid for by `keypair_path`, with the priority fee
    /// written in decimal when one is given.
    pub fn funded(
        rpc_url: String,
        keypair_path: String,
        priority_fees: Option<u64>,
        cmd: FundedIdlSubcommand,
    ) -> (r: Self)
        ensures
            r.rpc_url_spec() == rpc_url@,
            r.subcommand_spec() matches IdlSubcommandKind::Funded { keypair_path: k, priority_fees_str: f, cmd: c }
                && k == keypair_path && c == cmd && (f is Some <==> priority_fees is Some) && (
                priority_fees matches Some(n) ==> to_string_from_display_ensures::<u64>(&n, f->0)),
    {
        let priority_fees_str = match priority_fees {
            Some(f) => Some(f.to_string()),
            None => None,
        };
        IdlCommand {
            rpc_url,
            subcommand: IdlSubcommandKind::Funded { keypair_path, priority_fees_str, cmd },
        }
    }

    /// A read-only command.
    pub fn unfunded(rpc_url: String, cmd: UnfundedIdlSubcommand) -> (r: Self)
        ensures
            r.rpc_url_spec() == rpc_url@,
            r.subcommand_spec() == IdlSubcommandKind::Unfunded(cmd),
    {
        IdlCommand { rpc_url, subcommand: IdlSubcommandKind::Unfunded(cmd) }
    }

    /// The arguments handed to the package runner: the client package, the
    /// cluster, then the command.
    pub fn command_args(&self) -> (r: Vec<&str>)
        ensures
            strs_view(r@) == seq![PMP_CLIENT_PACKAGE@, "--rpc"@, self.rpc_url_spec()] + kind_args(
                self.subcommand_spec(),
            ),
    {
        let mut args: Vec<&str> = Vec::new();
        args.push(PMP_CLIENT_PACKAGE);
        args.push("--rpc");
        args.push(self.rpc_url.as_str());
        let rest = self.subcommand.args();
        let mut i: usize = 0;
        while i < rest.len()
            invariant
                0 <= i <= rest@.len(),
                strs_view(rest@) == kind_args(self.subcommand_spec()),
                strs_view(args@) == seq![PMP_CLIENT_PACKAGE@, "--rpc"@, self.rpc_url_spec()]
                    + strs_view(rest@).subrange(0, i as int),
            decreases rest@.len() - i,
        {
            let ghost before = args@;
            args.push(rest[i]);
            assert(strs_view(args@) =~= strs_view(before).push(rest@[i as int]@));
            assert(strs_view(rest@).subrange(0, i + 1) =~= strs_view(rest@).subrange(0, i as int).push(
                rest@[i as int]@,
            ));
            assert(strs_view(args@) =~= seq![PMP_CLIENT_PACKAGE@, "--rpc"@, self.rpc_url_spec()]
                + strs_view(rest@).subrange(0, i + 1));
            i = i + 1;
        }
        assert(strs_view(rest@).subrange(0, rest@.len() as int) =~= strs_view(rest@));
        args
    }
}

} // verus!
