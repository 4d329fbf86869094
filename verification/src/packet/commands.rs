//! Command numbers and error codes of the game protocol.
use crate::text::{ascii_chars, decimal_digits, decimal_string};
use vstd::prelude::*;
use vstd::string::StringExecFns;

verus! {

/// The command carried by a packet. Each variant stands for one 16-bit
/// command number on the wire (see `Command::spec_to_u16`).
#[derive(Debug, Clone, Copy, PartialEq, Eq, Structural)]
pub enum Command {
    /// No command, or a command number that names none of the others.
    NoCommand,
    // Client to GateServer
    CTGTLogin,
    CTGTSelectCharacter,
    // GameServer to Client
    GMTCEnterMap,
    // GateServer to Client
    GTTCEstablishConnection,
    GTTCMapCrash,
    GTTCLogin,
    // GateServer to GroupServer
    GTTGPInit,
    GTTGPSyncPlayerList,
    GTTGPUserLogin,
    GTTGPUserLogout,
    GTTGPUserBeginPlay,
    GTTGPUserDisconnected,
    // GameServer to GateServer
    GMTGTInit,
    // GateServer to GameServer
    GTTGMInitAcknowledge,
    GTTGMPlayerEnterMap,
    GTTGMKickCharacter,
}

impl Command {
    /// The command number of each command.
    pub open spec fn spec_to_u16(self) -> u16 {
        match self {
            Command::NoCommand => 0,
            Command::CTGTLogin => 431,
            Command::CTGTSelectCharacter => 433,
            Command::GMTCEnterMap => 516,
            Command::GTTCEstablishConnection => 940,
            Command::GTTCMapCrash => 503,
            Command::GTTCLogin => 931,
            Command::GTTGPInit => 2001,
            Command::GTTGPSyncPlayerList => 2015,
            Command::GTTGPUserLogin => 2003,
            Command::GTTGPUserLogout => 2004,
            Command::GTTGPUserBeginPlay => 2005,
            Command::GTTGPUserDisconnected => 2011,
            Command::GMTGTInit => 1501,
            Command::GTTGMInitAcknowledge => 1005,
            Command::GTTGMPlayerEnterMap => 1003,
            Command::GTTGMKickCharacter => 1009,
        }
    }

    /// The command with the given number, if there is one.
    pub open spec fn spec_from_u16(v: u16) -> Option<Command> {
        if v == 0 {
            Some(Command::NoCommand)
        } else if v == 431 {
            Some(Command::CTGTLogin)
        } else if v == 433 {
            Some(Command::CTGTSelectCharacter)
        } else if v == 516 {
            Some(Command::GMTCEnterMap)
        } else if v == 940 {
            Some(Command::GTTCEstablishConnection)
        } else if v == 503 {
            Some(Command::GTTCMapCrash)
        } else if v == 931 {
            Some(Command::GTTCLogin)
        } else if v == 2001 {
            Some(Command::GTTGPInit)
        } else if v == 2015 {
            Some(Command::GTTGPSyncPlayerList)
        } else if v == 2003 {
            Some(Command::GTTGPUserLogin)
        } else if v == 2004 {
            Some(Command::GTTGPUserLogout)
        } else if v == 2005 {
            Some(Command::GTTGPUserBeginPlay)
        } else if v == 2011 {
            Some(Command::GTTGPUserDisconnected)
        } else if v == 1501 {
            Some(Command::GMTGTInit)
        } else if v == 1005 {
            Some(Command::GTTGMInitAcknowledge)
        } else if v == 1003 {
            Some(Command::GTTGMPlayerEnterMap)
        } else if v == 1009 {
            Some(Command::GTTGMKickCharacter)
        } else {
            None
        }
    }

    /// The command number of this command.
    pub fn to_u16(&self) -> (r: u16)
        ensures
            r == self.spec_to_u16(),
    {
        match self {
            Command::NoCommand => 0,
            Command::CTGTLogin => 431,
            Command::CTGTSelectCharacter => 433,
            Command::GMTCEnterMap => 516,
            Command::GTTCEstablishConnection => 940,
            Command::GTTCMapCrash => 503,
            Command::GTTCLogin => 931,
            Command::GTTGPInit => 2001,
            Command::GTTGPSyncPlayerList => 2015,
            Command::GTTGPUserLogin => 2003,
            Command::GTTGPUserLogout => 2004,
            Command::GTTGPUserBeginPlay => 2005,
            Command::GTTGPUserDisconnected => 2011,
            Command::GMTGTInit => 1501,
            Command::GTTGMInitAcknowledge => 1005,
            Command::GTTGMPlayerEnterMap => 1003,
            Command::GTTGMKickCharacter => 1009,
        }
    }

    /// The command with the given number; `None` for a number that names no command.
    pub fn try_from_u16(v: u16) -> (r: Option<Command>)
        ensures
            r == Command::spec_from_u16(v),
    {
        if v == 0 {
            Some(Command::NoCommand)
        } else if v == 431 {
            Some(Command::CTGTLogin)
        } else if v == 433 {
            Some(Command::CTGTSelectCharacter)
        } else if v == 516 {
            Some(Command::GMTCEnterMap)
        } else if v == 940 {
            Some(Command::GTTCEstablishConnection)
        } else if v == 503 {
            Some(Command::GTTCMapCrash)
        } else if v == 931 {
            Some(Command::GTTCLogin)
        } else if v == 2001 {
            Some(Command::GTTGPInit)
        } else if v == 2015 {
            Some(Command::GTTGPSyncPlayerList)
        } else if v == 2003 {
            Some(Command::GTTGPUserLogin)
        } else if v == 2004 {
            Some(Command::GTTGPUserLogout)
        } else if v == 2005 {
            Some(Command::GTTGPUserBeginPlay)
        } else if v == 2011 {
            Some(Command::GTTGPUserDisconnected)
        } else if v == 1501 {
            Some(Command::GMTGTInit)
        } else if v == 1005 {
            Some(Command::GTTGMInitAcknowledge)
        } else if v == 1003 {
            Some(Command::GTTGMPlayerEnterMap)
        } else if v == 1009 {
            Some(Command::GTTGMKickCharacter)
        } else {
            None
        }
    }

    /// The name shown for a command; `None` for commands shown by number.
    pub open spec fn spec_display_name(self) -> Option<Seq<char>> {
        match self {
            Command::NoCommand => Some("None"@),
            Command::CTGTLogin => Some("CTGTLogin"@),
            Command::CTGTSelectCharacter => Some("CTGTSelectCharacter"@),
            Command::GTTCEstablishConnection => Some("GTTCEstablishConnection"@),
            Command::GTTCMapCrash => Some("GTTCMapCrash"@),
            Command::GTTCLogin => Some("GTTCLogin"@),
            Command::GTTGPInit => Some("GTTGPInit"@),
            Command::GTTGPSyncPlayerList => Some("GTTGPSyncPlayerList"@),
            Command::GTTGPUserLogin => Some("GTTGPUserLogin"@),
            Command::GTTGPUserLogout => Some("GTTGPUserLogout"@),
            Command::GTTGPUserDisconnected => Some("GTTGPUserDisconnected"@),
            Command::GMTGTInit => Some("GMTGTInit"@),
            _ => None,
        }
    }

    /// The text shown for a command: its name, or for the commands that have
    /// none, `Unknown, value: ` followed by its number in decimal.
    pub open spec fn spec_display(self) -> Seq<char> {
        match self.spec_display_name() {
            Some(name) => name,
            None => "Unknown, value: "@ + ascii_chars(decimal_digits(self.spec_to_u16() as nat)),
        }
    }

    /// The text shown for a command (see `spec_display`).
    pub fn to_display_string(&self) -> (r: String)
        ensures
            r@ == self.spec_display(),
    {
        match self {
            Command::NoCommand => String::from_str("None"),
            Command::CTGTLogin => String::from_str("CTGTLogin"),
            Command::CTGTSelectCharacter => String::from_str("CTGTSelectCharacter"),
            Command::GTTCEstablishConnection => String::from_str("GTTCEstablishConnection"),
            Command::GTTCMapCrash => String::from_str("GTTCMapCrash"),
            Command::GTTCLogin => String::from_str("GTTCLogin"),
            Command::GTTGPInit => String::from_str("GTTGPInit"),
            Command::GTTGPSyncPlayerList => String::from_str("GTTGPSyncPlayerList"),
            Command::GTTGPUserLogin => String::from_str("GTTGPUserLogin"),
            Command::GTTGPUserLogout => String::from_str("GTTGPUserLogout"),
            Command::GTTGPUserDisconnected => String::from_str("GTTGPUserDisconnected"),
            Command::GMTGTInit => String::from_str("GMTGTInit"),
            _ => {
                let mut s = String::from_str("Unknown, value: ");
                let n = decimal_string(self.to_u16() as u64);
                s.append(n.as_str());
                s
            },
        }
    }
}

/// Each command number round-trips through its command.
pub proof fn law_command_number_roundtrip(c: Command)
    ensures
        Command::spec_from_u16(c.spec_to_u16()) == Some(c),
{
}

/// A number that names a command is that command's number.
pub proof fn law_command_from_number(v: u16)
    ensures
        Command::spec_from_u16(v) matches Some(c) ==> c.spec_to_u16() == v,
{
}

/// The error codes sent to clients.
#[derive(Debug, Clone, Copy, PartialEq, Eq, Structural)]
pub enum ErrorCode {
    /// No error.
    NoError,
    // Error codes - Gate/GameServer -> Client
    ErrNetworkException,
    ErrClientNotLoggedIn,
    ErrClientVersionMismatch,
}

impl ErrorCode {
    /// The number of each error code.
    pub open spec fn spec_to_u16(self) -> u16 {
        match self {
            ErrorCode::NoError => 0,
            ErrorCode::ErrNetworkException => 1,
            ErrorCode::ErrClientNotLoggedIn => 6,
            ErrorCode::ErrClientVersionMismatch => 7,
        }
    }

    /// The number of this error code.
    pub fn to_u16(&self) -> (r: u16)
        ensures
            r == self.spec_to_u16(),
    {
        match self {
            ErrorCode::NoError => 0,
            ErrorCode::ErrNetworkException => 1,
            ErrorCode::ErrClientNotLoggedIn => 6,
            ErrorCode::ErrClientVersionMismatch => 7,
        }
    }

    /// The error code with the given number, if there is one.
    pub fn try_from_u16(v: u16) -> (r: Option<ErrorCode>)
        ensures
            r matches Some(e) ==> e.spec_to_u16() == v,
            r is None <==> (v != 0 && v != 1 && v != 6 && v != 7),
    {
        if v == 0 {
            Some(ErrorCode::NoError)
        } else if v == 1 {
            Some(ErrorCode::ErrNetworkException)
        } else if v == 6 {
            Some(ErrorCode::ErrClientNotLoggedIn)
        } else if v == 7 {
            Some(ErrorCode::ErrClientVersionMismatch)
        } else {
            None
        }
    }
}

} // verus!
