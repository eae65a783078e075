//! The command line.
use vstd::prelude::*;

use crate::net::SocketAddr;

verus! {

/// What the command line asks for: whether to be a server, and the address, or what is wrong with
/// it. `address` is what the third argument stands for, if there is one and it is an address.
pub open spec fn parsed(args: Seq<String>, address: Option<SocketAddr>) -> Result<
    (bool, SocketAddr),
    Seq<char>,
> {
    if args.len() == 0 {
        Err("Bad argument list"@)
    } else if args.len() == 1 {
        Err("Missing server/client argument"@)
    } else if args[1]@ != "server"@ && args[1]@ != "client"@ {
        Err("Bad server/client argument"@)
    } else if args.len() == 2 {
        Err("Missing address:port argument"@)
    } else {
        match address {
            None => Err("Bad address:port argument"@),
            Some(address) => Ok((args[1]@ == "server"@, address)),
        }
    }
}

/// Parses the command-line arguments, the first of which is the name of the program, with the
/// address that the third one stands for, if it is one.
pub fn parse_arguments(args: &Vec<String>, address: Option<SocketAddr>) -> (r: Result<
    (bool, SocketAddr),
    &'static str,
>)
    ensures
        parsed(args@, address) == match r {
            Ok(request) => Ok::<(bool, SocketAddr), Seq<char>>(request),
            Err(message) => Err(message@),
        },
{
    if args.len() == 0 {
        return Err("Bad argument list");
    }
    if args.len() == 1 {
        return Err("Missing server/client argument");
    }
    let is_server = if args[1] == "server".to_owned() {
        true
    } else if args[1] == "client".to_owned() {
        false
    } else {
        return Err("Bad server/client argument");
    };
    if args.len() == 2 {
        return Err("Missing address:port argument");
    }
    match address {
        Some(address) => {
            proof {
                reveal_strlit("server");
                reveal_strlit("client");
            }
            Ok((is_server, address))
        },
        None => Err("Bad address:port argument"),
    }
}

proof fn words_differ()
    ensures
        "server"@ != "client"@,
{
    reveal_strlit("server");
    reveal_strlit("client");
    assert("server"@[0] != "client"@[0]);
}

/// Three arguments or more, of which the second is `client`, make a client on the address that the
/// third one stands for. If it is `server`, they make a server. Without an address they make
/// nothing. The other arguments do not matter, nor how many there are.
pub proof fn second_argument_decides(
    args: &Vec<String>,
    address: Option<SocketAddr>,
    r: Result<(bool, SocketAddr), &'static str>,
)
    requires
        args@.len() >= 3,
        call_ensures(parse_arguments, (args, address), r),
    ensures
        args@[1]@ == "client"@ ==> match address {
            Some(a) => r == Ok::<(bool, SocketAddr), &'static str>((false, a)),
            None => r is Err && (r->Err_0)@ == "Bad address:port argument"@,
        },
        args@[1]@ == "server"@ ==> match address {
            Some(a) => r == Ok::<(bool, SocketAddr), &'static str>((true, a)),
            None => r is Err && (r->Err_0)@ == "Bad address:port argument"@,
        },
        args@[1]@ != "client"@ && args@[1]@ != "server"@ ==> r is Err && (r->Err_0)@
            == "Bad server/client argument"@,
{
    words_differ();
}

/// With fewer than three arguments nothing is run, whatever the address: what is missing or wrong
/// first is what is told.
pub proof fn missing_argument_is_told(
    args: &Vec<String>,
    address: Option<SocketAddr>,
    r: Result<(bool, SocketAddr), &'static str>,
)
    requires
        args@.len() < 3,
        call_ensures(parse_arguments, (args, address), r),
    ensures
        r is Err,
        args@.len() == 0 ==> (r->Err_0)@ == "Bad argument list"@,
        args@.len() == 1 ==> (r->Err_0)@ == "Missing server/client argument"@,
        args@.len() == 2 ==> (r->Err_0)@ == if args@[1]@ == "client"@ || args@[1]@ == "server"@ {
            "Missing address:port argument"@
        } else {
            "Bad server/client argument"@
        },
{
}

/// Two command lines of three arguments or more, with the same second argument and the same
/// address, ask for the same.
pub proof fn other_arguments_do_not_matter(
    args: &Vec<String>,
    others: &Vec<String>,
    address: SocketAddr,
    r: Result<(bool, SocketAddr), &'static str>,
    s: Result<(bool, SocketAddr), &'static str>,
)
    requires
        args@.len() >= 3,
        others@.len() >= 3,
        args@[1]@ == others@[1]@,
        call_ensures(parse_arguments, (args, Some(address)), r),
        call_ensures(parse_arguments, (others, Some(address)), s),
    ensures
        r is Ok <==> s is Ok,
        r is Ok ==> r == s && (r->Ok_0).1 == address,
{
    second_argument_decides(args, Some(address), r);
    second_argument_decides(others, Some(address), s);
}

} // verus!
