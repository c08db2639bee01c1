//! The user service: what is written so that the system runs the daemon.

use vstd::prelude::*;

use crate::integration;
use crate::integration::laws;

verus! {

/// The systemd unit that runs a program as the daemon.
pub open spec fn unit_of(executable: Seq<char>) -> Seq<char> {
    "[Unit]\nDescription=Secure LAN clipboard synchronization\nAfter=graphical-session.target network-online.target\n\n[Service]\nExecStart="@
        + executable
        + " daemon\nRestart=on-failure\nRestartSec=3\n\n[Install]\nWantedBy=default.target\n"@
}

/// The systemd unit that runs a program as the daemon.
pub fn systemd_unit(executable: &str) -> (words: String)
    ensures
        words@ == unit_of(executable@),
{
    let mut words = "[Unit]\nDescription=Secure LAN clipboard synchronization\nAfter=graphical-session.target network-online.target\n\n[Service]\nExecStart=".to_owned();
    words.append(executable);
    words.append(" daemon\nRestart=on-failure\nRestartSec=3\n\n[Install]\nWantedBy=default.target\n");
    words
}

/// The launchd job that runs a program as the daemon.
pub open spec fn plist_of(executable: Seq<char>) -> Seq<char> {
    "<?xml version=\"1.0\" encoding=\"UTF-8\"?>\n<!DOCTYPE plist PUBLIC \"-//Apple//DTD PLIST 1.0//EN\" \"http://www.apple.com/DTDs/PropertyList-1.0.dtd\">\n<plist version=\"1.0\"><dict>\n<key>Label</key><string>org.lan-cat.daemon</string>\n<key>ProgramArguments</key><array><string>"@
        + integration::escaped(executable, false)
        + "</string><string>daemon</string></array>\n<key>KeepAlive</key><true/>\n<key>RunAtLoad</key><true/>\n</dict></plist>\n"@
}

/// The launchd job that runs a program as the daemon.
pub fn launchd_plist(executable: &str) -> (words: String)
    ensures
        words@ == plist_of(executable@),
{
    let mut words = "<?xml version=\"1.0\" encoding=\"UTF-8\"?>\n<!DOCTYPE plist PUBLIC \"-//Apple//DTD PLIST 1.0//EN\" \"http://www.apple.com/DTDs/PropertyList-1.0.dtd\">\n<plist version=\"1.0\"><dict>\n<key>Label</key><string>org.lan-cat.daemon</string>\n<key>ProgramArguments</key><array><string>".to_owned();
    words.append(integration::escape(executable, false).as_str());
    words.append("</string><string>daemon</string></array>\n<key>KeepAlive</key><true/>\n<key>RunAtLoad</key><true/>\n</dict></plist>\n");
    words
}

/// The unit runs the program as the daemon: behind `ExecStart=` stands the program's path,
/// and behind that the word `daemon` and the end of the line.
pub proof fn law_unit_runs_the_program(executable: Seq<char>)
    ensures
        ({
            let unit = unit_of(executable);
            exists|at: int|
                #![trigger unit.subrange(at, at + executable.len())]
                10 <= at && integration::stands_at(unit, "ExecStart="@, at - 10) && unit.subrange(
                    at,
                    at + executable.len(),
                ) == executable && integration::stands_at(
                    unit,
                    " daemon\n"@,
                    at + executable.len(),
                )
        }),
{
    reveal_strlit("ExecStart=");
    reveal_strlit(" daemon\n");
    reveal_strlit(
        "[Unit]\nDescription=Secure LAN clipboard synchronization\nAfter=graphical-session.target network-online.target\n\n[Service]\nExecStart=",
    );
    reveal_strlit(
        " daemon\nRestart=on-failure\nRestartSec=3\n\n[Install]\nWantedBy=default.target\n",
    );
    let head = "[Unit]\nDescription=Secure LAN clipboard synchronization\nAfter=graphical-session.target network-online.target\n\n[Service]\nExecStart="@;
    let tail = " daemon\nRestart=on-failure\nRestartSec=3\n\n[Install]\nWantedBy=default.target\n"@;
    let unit = unit_of(executable);
    let at = head.len() as int;
    assert(unit.subrange(at, at + executable.len()) =~= executable);
    assert(unit.subrange(at - 10, at) =~= head.subrange(at - 10, at));
    assert(head.subrange(at - 10, at) =~= "ExecStart="@);
    let k = at + executable.len();
    assert(unit.subrange(k, k + 8) =~= tail.subrange(0, 8));
    assert(tail.subrange(0, 8) =~= " daemon\n"@);
}

/// The job runs the program as the daemon: between the tags of its first argument stands what
/// XML reads as the program's path, and the next argument is `daemon`.
pub proof fn law_job_runs_the_program(executable: Seq<char>)
    ensures
        ({
            let job = plist_of(executable);
            let path = integration::escaped(executable, false);
            exists|at: int|
                #![trigger job.subrange(at, at + path.len())]
                8 <= at && integration::stands_at(job, "<string>"@, at - 8) && job.subrange(
                    at,
                    at + path.len(),
                ) == path && integration::stands_at(
                    job,
                    "</string><string>daemon</string>"@,
                    at + path.len(),
                )
        }),
        laws::xml_reads(integration::escaped(executable, false)) == executable,
{
    laws::law_xml_reads_the_value(executable, false);
    reveal_strlit("<string>");
    reveal_strlit("</string><string>daemon</string>");
    reveal_strlit(
        "<?xml version=\"1.0\" encoding=\"UTF-8\"?>\n<!DOCTYPE plist PUBLIC \"-//Apple//DTD PLIST 1.0//EN\" \"http://www.apple.com/DTDs/PropertyList-1.0.dtd\">\n<plist version=\"1.0\"><dict>\n<key>Label</key><string>org.lan-cat.daemon</string>\n<key>ProgramArguments</key><array><string>",
    );
    reveal_strlit(
        "</string><string>daemon</string></array>\n<key>KeepAlive</key><true/>\n<key>RunAtLoad</key><true/>\n</dict></plist>\n",
    );
    let head = "<?xml version=\"1.0\" encoding=\"UTF-8\"?>\n<!DOCTYPE plist PUBLIC \"-//Apple//DTD PLIST 1.0//EN\" \"http://www.apple.com/DTDs/PropertyList-1.0.dtd\">\n<plist version=\"1.0\"><dict>\n<key>Label</key><string>org.lan-cat.daemon</string>\n<key>ProgramArguments</key><array><string>"@;
    let tail = "</string><string>daemon</string></array>\n<key>KeepAlive</key><true/>\n<key>RunAtLoad</key><true/>\n</dict></plist>\n"@;
    let job = plist_of(executable);
    let path = integration::escaped(executable, false);
    let at = head.len() as int;
    assert(job.subrange(at, at + path.len()) =~= path);
    assert(job.subrange(at - 8, at) =~= head.subrange(at - 8, at));
    assert(head.subrange(at - 8, at) =~= "<string>"@);
    let k = at + path.len();
    assert(job.subrange(k, k + 32) =~= tail.subrange(0, 32));
    assert(tail.subrange(0, 32) =~= "</string><string>daemon</string>"@);
}

} // verus!
