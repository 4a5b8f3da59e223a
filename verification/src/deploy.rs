//! Switches for the site's companion deployment tool: which parts a package
//! includes, which service actions a remote power command runs, and the
//! exact scripts those choices produce. Running the commands is I/O and
//! stays with the tool; the decisions are here.

use vstd::prelude::*;
use vstd::string::StringExecFns;

verus! {

/// What a deployment package holds.
#[derive(Clone, Copy, Debug, PartialEq, Eq, Structural)]
pub enum PackMode {
    Static,
    Bin,
    Both,
}

impl PackMode {
    /// Whether the package includes the server binary.
    pub fn bin(&self) -> (r: bool)
        ensures
            r == (*self is Bin || *self is Both),
    {
        match self {
            PackMode::Bin => true,
            PackMode::Static => false,
            PackMode::Both => true,
        }
    }

    /// Whether the package includes the static assets.
    pub fn static_files(&self) -> (r: bool)
        ensures
            r == (*self is Static || *self is Both),
    {
        match self {
            PackMode::Bin => false,
            PackMode::Static => true,
            PackMode::Both => true,
        }
    }
}

/// Which service actions a remote power command performs.
#[derive(Clone, Copy, Debug, PartialEq, Eq, Structural)]
pub enum PowerOptions {
    Start,
    Stop,
    Both,
}

impl PowerOptions {
    /// Whether the service is to be started.
    pub fn start(&self) -> (r: bool)
        ensures
            r == (*self is Start || *self is Both),
    {
        match self {
            PowerOptions::Start => true,
            PowerOptions::Stop => false,
            PowerOptions::Both => true,
        }
    }

    /// Whether the service is to be stopped.
    pub fn stop(&self) -> (r: bool)
        ensures
            r == (*self is Stop || *self is Both),
    {
        match self {
            PowerOptions::Start => false,
            PowerOptions::Stop => true,
            PowerOptions::Both => true,
        }
    }
}

/// The script a power command runs on the server: enter the site directory,
/// stop the service if asked, start it if asked — in that order.
pub open spec fn power_script_spec(options: PowerOptions) -> Seq<char> {
    "cd boolco.dev\n"@ + (if options is Stop || options is Both {
        "./stop.sh\n"@
    } else {
        Seq::<char>::empty()
    }) + (if options is Start || options is Both {
        "./start.sh\n"@
    } else {
        Seq::<char>::empty()
    })
}

/// Builds the power command's server-side script.
pub fn power_script(options: PowerOptions) -> (r: String)
    ensures
        r@ == power_script_spec(options),
{
    let mut buffer: String = "cd boolco.dev\n".to_owned();
    if options.stop() {
        buffer.append("./stop.sh\n");
    }
    if options.start() {
        buffer.append("./start.sh\n");
    }
    proof {
        assert(buffer@ =~= power_script_spec(options));
    }
    buffer
}

/// The script a deployment runs on the server after uploading the package:
/// stop the service when deploying, clear the static assets when the
/// package replaces them, unpack, and start the service again when
/// deploying.
pub open spec fn send_script_spec(mode: PackMode, deploy: bool) -> Seq<char> {
    "cd boolco.dev\n"@ + (if deploy {
        "./stop.sh\n"@
    } else {
        Seq::<char>::empty()
    }) + (if mode is Static || mode is Both {
        "rm -rf static\nrm -rf res\n"@
    } else {
        Seq::<char>::empty()
    }) + "unzip -o build.zip\n"@ + (if deploy {
        "./start.sh\n"@
    } else {
        Seq::<char>::empty()
    })
}

/// Builds the deployment's server-side script.
pub fn send_script(mode: PackMode, deploy: bool) -> (r: String)
    ensures
        r@ == send_script_spec(mode, deploy),
{
    let mut buffer: String = "cd boolco.dev\n".to_owned();
    if deploy {
        buffer.append("./stop.sh\n");
    }
    if mode.static_files() {
        // the binary needs no removal: unpacking overwrites it
        buffer.append("rm -rf static\nrm -rf res\n");
    }
    buffer.append("unzip -o build.zip\n");
    if deploy {
        buffer.append("./start.sh\n");
    }
    proof {
        assert(buffer@ =~= send_script_spec(mode, deploy));
    }
    buffer
}

/// Merges cached ssh options with explicitly provided ones: an explicit
/// value wins, a missing one falls back to the cache.
pub fn merge_ssh_options(
    cached_key: Option<String>,
    cached_port: Option<u16>,
    key: Option<String>,
    port: Option<u16>,
) -> (r: (Option<String>, Option<u16>))
    ensures
        r.0 == (if key is Some {
            key
        } else {
            cached_key
        }),
        r.1 == (if port is Some {
            port
        } else {
            cached_port
        }),
{
    let k = if key.is_some() {
        key
    } else {
        cached_key
    };
    let p = if port.is_some() {
        port
    } else {
        cached_port
    };
    (k, p)
}

} // verus!
