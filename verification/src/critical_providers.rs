//! The event providers that security tools depend on.
use vstd::prelude::*;

use crate::text::{ascii_lowered, contains, lowercase, occurs, occurs_at, str_texts, to_lowercase};

verus! {

/// The Microsoft-Windows-Threat-Intelligence provider.
pub const THREAT_INTEL_GUID: &'static str = "{f4e1897c-bb5d-5668-f1d8-040f4d8dd344}";

/// The Microsoft-Windows-Security-Auditing provider.
pub const SECURITY_AUDITING_GUID: &'static str = "{54849625-5478-4994-a5ba-3e3b0328c30d}";

/// The Microsoft-Antimalware-Scan-Interface provider.
pub const AMSI_GUID: &'static str = "{2a576b87-09a7-520e-c21a-4942f0271d67}";

/// The Microsoft-Windows-PowerShell provider.
pub const POWERSHELL_GUID: &'static str = "{a0c1853b-5c40-4b15-8766-3cf1c58f985a}";

/// The Microsoft-Windows-DNS-Client provider.
pub const DNS_CLIENT_GUID: &'static str = "{1c95126e-7eea-49a9-a3fe-a378b03ddb4d}";

/// The Microsoft-Windows-Kernel-Process provider.
pub const KERNEL_PROCESS_GUID: &'static str = "{22fb2cd6-0e7b-422b-a0c7-2fad1fd0e716}";

/// The Microsoft-Windows-Kernel-File provider.
pub const KERNEL_FILE_GUID: &'static str = "{edd08927-9cc4-4e65-b970-c2560fb5c289}";

/// The Microsoft-Windows-Kernel-Network provider.
pub const KERNEL_NETWORK_GUID: &'static str = "{7dd42a49-5329-4832-8dfd-43d979153a88}";

/// The Windows Defender provider.
pub const DEFENDER_GUID: &'static str = "{11cd958a-c507-4ef3-b3f2-5fd9dfbd2c78}";

/// The Sysmon provider.
pub const SYSMON_GUID: &'static str = "{5770385f-c22a-43e0-bf4c-06f5698ffbd9}";

/// The identifiers of the providers.
pub open spec fn critical_guids() -> Seq<Seq<char>> {
    seq![
        THREAT_INTEL_GUID@,
        SECURITY_AUDITING_GUID@,
        AMSI_GUID@,
        POWERSHELL_GUID@,
        DNS_CLIENT_GUID@,
        KERNEL_PROCESS_GUID@,
        KERNEL_FILE_GUID@,
        KERNEL_NETWORK_GUID@,
        DEFENDER_GUID@,
        SYSMON_GUID@,
    ]
}

/// The identifiers of the providers.
pub fn all_critical_guids() -> (r: Vec<&'static str>)
    ensures
        str_texts(r@) == critical_guids(),
        r@.len() == 10,
{
    let r = vec![
        THREAT_INTEL_GUID,
        SECURITY_AUDITING_GUID,
        AMSI_GUID,
        POWERSHELL_GUID,
        DNS_CLIENT_GUID,
        KERNEL_PROCESS_GUID,
        KERNEL_FILE_GUID,
        KERNEL_NETWORK_GUID,
        DEFENDER_GUID,
        SYSMON_GUID,
    ];
    assert(str_texts(r@) =~= critical_guids());
    r
}

/// The name of the provider whose identifier stands in a text in lower case.
pub open spec fn provider_name(s: Seq<char>) -> Seq<char> {
    if occurs("f4e1897c-bb5d-5668-f1d8-040f4d8dd344"@, s) {
        "Microsoft-Windows-Threat-Intelligence"@
    } else if occurs("54849625-5478-4994-a5ba-3e3b0328c30d"@, s) {
        "Microsoft-Windows-Security-Auditing"@
    } else if occurs("2a576b87-09a7-520e-c21a-4942f0271d67"@, s) {
        "Microsoft-Antimalware-Scan-Interface"@
    } else if occurs("a0c1853b-5c40-4b15-8766-3cf1c58f985a"@, s) {
        "Microsoft-Windows-PowerShell"@
    } else if occurs("1c95126e-7eea-49a9-a3fe-a378b03ddb4d"@, s) {
        "Microsoft-Windows-DNS-Client"@
    } else if occurs("22fb2cd6-0e7b-422b-a0c7-2fad1fd0e716"@, s) {
        "Microsoft-Windows-Kernel-Process"@
    } else if occurs("edd08927-9cc4-4e65-b970-c2560fb5c289"@, s) {
        "Microsoft-Windows-Kernel-File"@
    } else if occurs("7dd42a49-5329-4832-8dfd-43d979153a88"@, s) {
        "Microsoft-Windows-Kernel-Network"@
    } else if occurs("11cd958a-c507-4ef3-b3f2-5fd9dfbd2c78"@, s) {
        "Windows-Defender"@
    } else if occurs("5770385f-c22a-43e0-bf4c-06f5698ffbd9"@, s) {
        "Sysmon"@
    } else {
        "Unknown"@
    }
}

/// The name of a provider, by its identifier in any case of its letters.
pub fn name_from_guid(guid: &str) -> (r: &'static str)
    ensures
        r@ == provider_name(lowercase(guid@)),
        vstd::utf8::is_ascii_chars(guid@) ==> r@ == provider_name(ascii_lowered(guid@)),
{
    let lower = to_lowercase(guid);
    let s = lower.as_str();
    if contains(s, "f4e1897c-bb5d-5668-f1d8-040f4d8dd344") {
        "Microsoft-Windows-Threat-Intelligence"
    } else if contains(s, "54849625-5478-4994-a5ba-3e3b0328c30d") {
        "Microsoft-Windows-Security-Auditing"
    } else if contains(s, "2a576b87-09a7-520e-c21a-4942f0271d67") {
        "Microsoft-Antimalware-Scan-Interface"
    } else if contains(s, "a0c1853b-5c40-4b15-8766-3cf1c58f985a") {
        "Microsoft-Windows-PowerShell"
    } else if contains(s, "1c95126e-7eea-49a9-a3fe-a378b03ddb4d") {
        "Microsoft-Windows-DNS-Client"
    } else if contains(s, "22fb2cd6-0e7b-422b-a0c7-2fad1fd0e716") {
        "Microsoft-Windows-Kernel-Process"
    } else if contains(s, "edd08927-9cc4-4e65-b970-c2560fb5c289") {
        "Microsoft-Windows-Kernel-File"
    } else if contains(s, "7dd42a49-5329-4832-8dfd-43d979153a88") {
        "Microsoft-Windows-Kernel-Network"
    } else if contains(s, "11cd958a-c507-4ef3-b3f2-5fd9dfbd2c78") {
        "Windows-Defender"
    } else if contains(s, "5770385f-c22a-43e0-bf4c-06f5698ffbd9") {
        "Sysmon"
    } else {
        "Unknown"
    }
}

/// The names of the providers, in the order of their identifiers.
pub open spec fn critical_names() -> Seq<Seq<char>> {
    seq![
        "Microsoft-Windows-Threat-Intelligence"@,
        "Microsoft-Windows-Security-Auditing"@,
        "Microsoft-Antimalware-Scan-Interface"@,
        "Microsoft-Windows-PowerShell"@,
        "Microsoft-Windows-DNS-Client"@,
        "Microsoft-Windows-Kernel-Process"@,
        "Microsoft-Windows-Kernel-File"@,
        "Microsoft-Windows-Kernel-Network"@,
        "Windows-Defender"@,
        "Sysmon"@,
    ]
}

proof fn lemma_identifier_at(id: Seq<char>, text: Seq<char>)
    requires
        id.len() == 36,
        text.len() == 38,
        id[8] == '-',
        text[8] != '-',
        text[10] != '-',
        occurs(id, text),
    ensures
        text[1] == id[0],
        text[2] == id[1],
{
    let i = choose|i: int| occurs_at(id, text, i);
    let part = text.subrange(i, i + 36);
    assert(part[8] == text[i + 8]);
    assert(i == 1);
    assert(part[0] == text[1] && part[1] == text[2]);
}

proof fn lemma_threat_intel_guid_known()
    ensures
        provider_name(ascii_lowered(THREAT_INTEL_GUID@)) == "Microsoft-Windows-Threat-Intelligence"@,
        vstd::utf8::is_ascii_chars(THREAT_INTEL_GUID@),
{
    let text = ascii_lowered(THREAT_INTEL_GUID@);
    reveal_strlit("{f4e1897c-bb5d-5668-f1d8-040f4d8dd344}");
    reveal_strlit("f4e1897c-bb5d-5668-f1d8-040f4d8dd344");
    assert(THREAT_INTEL_GUID@ == "{f4e1897c-bb5d-5668-f1d8-040f4d8dd344}"@);
    assert(text.len() == 38);
    assert(text.subrange(1, 37) =~= "f4e1897c-bb5d-5668-f1d8-040f4d8dd344"@);
    assert(occurs_at("f4e1897c-bb5d-5668-f1d8-040f4d8dd344"@, text, 1));
    assert(text[8] != '-' && text[10] != '-');
}

proof fn lemma_security_auditing_guid_known()
    ensures
        provider_name(ascii_lowered(SECURITY_AUDITING_GUID@)) == "Microsoft-Windows-Security-Auditing"@,
        vstd::utf8::is_ascii_chars(SECURITY_AUDITING_GUID@),
{
    let text = ascii_lowered(SECURITY_AUDITING_GUID@);
    reveal_strlit("{54849625-5478-4994-a5ba-3e3b0328c30d}");
    reveal_strlit("54849625-5478-4994-a5ba-3e3b0328c30d");
    assert(SECURITY_AUDITING_GUID@ == "{54849625-5478-4994-a5ba-3e3b0328c30d}"@);
    assert(text.len() == 38);
    assert(text.subrange(1, 37) =~= "54849625-5478-4994-a5ba-3e3b0328c30d"@);
    assert(occurs_at("54849625-5478-4994-a5ba-3e3b0328c30d"@, text, 1));
    assert(text[8] != '-' && text[10] != '-');
    if occurs("f4e1897c-bb5d-5668-f1d8-040f4d8dd344"@, text) {
        reveal_strlit("f4e1897c-bb5d-5668-f1d8-040f4d8dd344");
        lemma_identifier_at("f4e1897c-bb5d-5668-f1d8-040f4d8dd344"@, text);
    }
}

proof fn lemma_amsi_guid_known()
    ensures
        provider_name(ascii_lowered(AMSI_GUID@)) == "Microsoft-Antimalware-Scan-Interface"@,
        vstd::utf8::is_ascii_chars(AMSI_GUID@),
{
    let text = ascii_lowered(AMSI_GUID@);
    reveal_strlit("{2a576b87-09a7-520e-c21a-4942f0271d67}");
    reveal_strlit("2a576b87-09a7-520e-c21a-4942f0271d67");
    assert(AMSI_GUID@ == "{2a576b87-09a7-520e-c21a-4942f0271d67}"@);
    assert(text.len() == 38);
    assert(text.subrange(1, 37) =~= "2a576b87-09a7-520e-c21a-4942f0271d67"@);
    assert(occurs_at("2a576b87-09a7-520e-c21a-4942f0271d67"@, text, 1));
    assert(text[8] != '-' && text[10] != '-');
    if occurs("f4e1897c-bb5d-5668-f1d8-040f4d8dd344"@, text) {
        reveal_strlit("f4e1897c-bb5d-5668-f1d8-040f4d8dd344");
        lemma_identifier_at("f4e1897c-bb5d-5668-f1d8-040f4d8dd344"@, text);
    }
    if occurs("54849625-5478-4994-a5ba-3e3b0328c30d"@, text) {
        reveal_strlit("54849625-5478-4994-a5ba-3e3b0328c30d");
        lemma_identifier_at("54849625-5478-4994-a5ba-3e3b0328c30d"@, text);
    }
}

proof fn lemma_powershell_guid_known()
    ensures
        provider_name(ascii_lowered(POWERSHELL_GUID@)) == "Microsoft-Windows-PowerShell"@,
        vstd::utf8::is_ascii_chars(POWERSHELL_GUID@),
{
    let text = ascii_lowered(POWERSHELL_GUID@);
    reveal_strlit("{a0c1853b-5c40-4b15-8766-3cf1c58f985a}");
    reveal_strlit("a0c1853b-5c40-4b15-8766-3cf1c58f985a");
    assert(POWERSHELL_GUID@ == "{a0c1853b-5c40-4b15-8766-3cf1c58f985a}"@);
    assert(text.len() == 38);
    assert(text.subrange(1, 37) =~= "a0c1853b-5c40-4b15-8766-3cf1c58f985a"@);
    assert(occurs_at("a0c1853b-5c40-4b15-8766-3cf1c58f985a"@, text, 1));
    assert(text[8] != '-' && text[10] != '-');
    if occurs("f4e1897c-bb5d-5668-f1d8-040f4d8dd344"@, text) {
        reveal_strlit("f4e1897c-bb5d-5668-f1d8-040f4d8dd344");
        lemma_identifier_at("f4e1897c-bb5d-5668-f1d8-040f4d8dd344"@, text);
    }
    if occurs("54849625-5478-4994-a5ba-3e3b0328c30d"@, text) {
        reveal_strlit("54849625-5478-4994-a5ba-3e3b0328c30d");
        lemma_identifier_at("54849625-5478-4994-a5ba-3e3b0328c30d"@, text);
    }
    if occurs("2a576b87-09a7-520e-c21a-4942f0271d67"@, text) {
        reveal_strlit("2a576b87-09a7-520e-c21a-4942f0271d67");
        lemma_identifier_at("2a576b87-09a7-520e-c21a-4942f0271d67"@, text);
    }
}

proof fn lemma_dns_client_guid_known()
    ensures
        provider_name(ascii_lowered(DNS_CLIENT_GUID@)) == "Microsoft-Windows-DNS-Client"@,
        vstd::utf8::is_ascii_chars(DNS_CLIENT_GUID@),
{
    let text = ascii_lowered(DNS_CLIENT_GUID@);
    reveal_strlit("{1c95126e-7eea-49a9-a3fe-a378b03ddb4d}");
    reveal_strlit("1c95126e-7eea-49a9-a3fe-a378b03ddb4d");
    assert(DNS_CLIENT_GUID@ == "{1c95126e-7eea-49a9-a3fe-a378b03ddb4d}"@);
    assert(text.len() == 38);
    assert(text.subrange(1, 37) =~= "1c95126e-7eea-49a9-a3fe-a378b03ddb4d"@);
    assert(occurs_at("1c95126e-7eea-49a9-a3fe-a378b03ddb4d"@, text, 1));
    assert(text[8] != '-' && text[10] != '-');
    if occurs("f4e1897c-bb5d-5668-f1d8-040f4d8dd344"@, text) {
        reveal_strlit("f4e1897c-bb5d-5668-f1d8-040f4d8dd344");
        lemma_identifier_at("f4e1897c-bb5d-5668-f1d8-040f4d8dd344"@, text);
    }
    if occurs("54849625-5478-4994-a5ba-3e3b0328c30d"@, text) {
        reveal_strlit("54849625-5478-4994-a5ba-3e3b0328c30d");
        lemma_identifier_at("54849625-5478-4994-a5ba-3e3b0328c30d"@, text);
    }
    if occurs("2a576b87-09a7-520e-c21a-4942f0271d67"@, text) {
        reveal_strlit("2a576b87-09a7-520e-c21a-4942f0271d67");
        lemma_identifier_at("2a576b87-09a7-520e-c21a-4942f0271d67"@, text);
    }
    if occurs("a0c1853b-5c40-4b15-8766-3cf1c58f985a"@, text) {
        reveal_strlit("a0c1853b-5c40-4b15-8766-3cf1c58f985a");
        lemma_identifier_at("a0c1853b-5c40-4b15-8766-3cf1c58f985a"@, text);
    }
}

proof fn lemma_kernel_process_guid_known()
    ensures
        provider_name(ascii_lowered(KERNEL_PROCESS_GUID@)) == "Microsoft-Windows-Kernel-Process"@,
        vstd::utf8::is_ascii_chars(KERNEL_PROCESS_GUID@),
{
    let text = ascii_lowered(KERNEL_PROCESS_GUID@);
    reveal_strlit("{22fb2cd6-0e7b-422b-a0c7-2fad1fd0e716}");
    reveal_strlit("22fb2cd6-0e7b-422b-a0c7-2fad1fd0e716");
    assert(KERNEL_PROCESS_GUID@ == "{22fb2cd6-0e7b-422b-a0c7-2fad1fd0e716}"@);
    assert(text.len() == 38);
    assert(text.subrange(1, 37) =~= "22fb2cd6-0e7b-422b-a0c7-2fad1fd0e716"@);
    assert(occurs_at("22fb2cd6-0e7b-422b-a0c7-2fad1fd0e716"@, text, 1));
    assert(text[8] != '-' && text[10] != '-');
    if occurs("f4e1897c-bb5d-5668-f1d8-040f4d8dd344"@, text) {
        reveal_strlit("f4e1897c-bb5d-5668-f1d8-040f4d8dd344");
        lemma_identifier_at("f4e1897c-bb5d-5668-f1d8-040f4d8dd344"@, text);
    }
    if occurs("54849625-5478-4994-a5ba-3e3b0328c30d"@, text) {
        reveal_strlit("54849625-5478-4994-a5ba-3e3b0328c30d");
        lemma_identifier_at("54849625-5478-4994-a5ba-3e3b0328c30d"@, text);
    }
    if occurs("2a576b87-09a7-520e-c21a-4942f0271d67"@, text) {
        reveal_strlit("2a576b87-09a7-520e-c21a-4942f0271d67");
        lemma_identifier_at("2a576b87-09a7-520e-c21a-4942f0271d67"@, text);
    }
    if occurs("a0c1853b-5c40-4b15-8766-3cf1c58f985a"@, text) {
        reveal_strlit("a0c1853b-5c40-4b15-8766-3cf1c58f985a");
        lemma_identifier_at("a0c1853b-5c40-4b15-8766-3cf1c58f985a"@, text);
    }
    if occurs("1c95126e-7eea-49a9-a3fe-a378b03ddb4d"@, text) {
        reveal_strlit("1c95126e-7eea-49a9-a3fe-a378b03ddb4d");
        lemma_identifier_at("1c95126e-7eea-49a9-a3fe-a378b03ddb4d"@, text);
    }
}

proof fn lemma_kernel_file_guid_known()
    ensures
        provider_name(ascii_lowered(KERNEL_FILE_GUID@)) == "Microsoft-Windows-Kernel-File"@,
        vstd::utf8::is_ascii_chars(KERNEL_FILE_GUID@),
{
    let text = ascii_lowered(KERNEL_FILE_GUID@);
    reveal_strlit("{edd08927-9cc4-4e65-b970-c2560fb5c289}");
    reveal_strlit("edd08927-9cc4-4e65-b970-c2560fb5c289");
    assert(KERNEL_FILE_GUID@ == "{edd08927-9cc4-4e65-b970-c2560fb5c289}"@);
    assert(text.len() == 38);
    assert(text.subrange(1, 37) =~= "edd08927-9cc4-4e65-b970-c2560fb5c289"@);
    assert(occurs_at("edd08927-9cc4-4e65-b970-c2560fb5c289"@, text, 1));
    assert(text[8] != '-' && text[10] != '-');
    if occurs("f4e1897c-bb5d-5668-f1d8-040f4d8dd344"@, text) {
        reveal_strlit("f4e1897c-bb5d-5668-f1d8-040f4d8dd344");
        lemma_identifier_at("f4e1897c-bb5d-5668-f1d8-040f4d8dd344"@, text);
    }
    if occurs("54849625-5478-4994-a5ba-3e3b0328c30d"@, text) {
        reveal_strlit("54849625-5478-4994-a5ba-3e3b0328c30d");
        lemma_identifier_at("54849625-5478-4994-a5ba-3e3b0328c30d"@, text);
    }
    if occurs("2a576b87-09a7-520e-c21a-4942f0271d67"@, text) {
        reveal_strlit("2a576b87-09a7-520e-c21a-4942f0271d67");
        lemma_identifier_at("2a576b87-09a7-520e-c21a-4942f0271d67"@, text);
    }
    if occurs("a0c1853b-5c40-4b15-8766-3cf1c58f985a"@, text) {
        reveal_strlit("a0c1853b-5c40-4b15-8766-3cf1c58f985a");
        lemma_identifier_at("a0c1853b-5c40-4b15-8766-3cf1c58f985a"@, text);
    }
    if occurs("1c95126e-7eea-49a9-a3fe-a378b03ddb4d"@, text) {
        reveal_strlit("1c95126e-7eea-49a9-a3fe-a378b03ddb4d");
        lemma_identifier_at("1c95126e-7eea-49a9-a3fe-a378b03ddb4d"@, text);
    }
    if occurs("22fb2cd6-0e7b-422b-a0c7-2fad1fd0e716"@, text) {
        reveal_strlit("22fb2cd6-0e7b-422b-a0c7-2fad1fd0e716");
        lemma_identifier_at("22fb2cd6-0e7b-422b-a0c7-2fad1fd0e716"@, text);
    }
}

proof fn lemma_kernel_network_guid_known()
    ensures
        provider_name(ascii_lowered(KERNEL_NETWORK_GUID@)) == "Microsoft-Windows-Kernel-Network"@,
        vstd::utf8::is_ascii_chars(KERNEL_NETWORK_GUID@),
{
    let text = ascii_lowered(KERNEL_NETWORK_GUID@);
    reveal_strlit("{7dd42a49-5329-4832-8dfd-43d979153a88}");
    reveal_strlit("7dd42a49-5329-4832-8dfd-43d979153a88");
    assert(KERNEL_NETWORK_GUID@ == "{7dd42a49-5329-4832-8dfd-43d979153a88}"@);
    assert(text.len() == 38);
    assert(text.subrange(1, 37) =~= "7dd42a49-5329-4832-8dfd-43d979153a88"@);
    assert(occurs_at("7dd42a49-5329-4832-8dfd-43d979153a88"@, text, 1));
    assert(text[8] != '-' && text[10] != '-');
    if occurs("f4e1897c-bb5d-5668-f1d8-040f4d8dd344"@, text) {
        reveal_strlit("f4e1897c-bb5d-5668-f1d8-040f4d8dd344");
        lemma_identifier_at("f4e1897c-bb5d-5668-f1d8-040f4d8dd344"@, text);
    }
    if occurs("54849625-5478-4994-a5ba-3e3b0328c30d"@, text) {
        reveal_strlit("54849625-5478-4994-a5ba-3e3b0328c30d");
        lemma_identifier_at("54849625-5478-4994-a5ba-3e3b0328c30d"@, text);
    }
    if occurs("2a576b87-09a7-520e-c21a-4942f0271d67"@, text) {
        reveal_strlit("2a576b87-09a7-520e-c21a-4942f0271d67");
        lemma_identifier_at("2a576b87-09a7-520e-c21a-4942f0271d67"@, text);
    }
    if occurs("a0c1853b-5c40-4b15-8766-3cf1c58f985a"@, text) {
        reveal_strlit("a0c1853b-5c40-4b15-8766-3cf1c58f985a");
        lemma_identifier_at("a0c1853b-5c40-4b15-8766-3cf1c58f985a"@, text);
    }
    if occurs("1c95126e-7eea-49a9-a3fe-a378b03ddb4d"@, text) {
        reveal_strlit("1c95126e-7eea-49a9-a3fe-a378b03ddb4d");
        lemma_identifier_at("1c95126e-7eea-49a9-a3fe-a378b03ddb4d"@, text);
    }
    if occurs("22fb2cd6-0e7b-422b-a0c7-2fad1fd0e716"@, text) {
        reveal_strlit("22fb2cd6-0e7b-422b-a0c7-2fad1fd0e716");
        lemma_identifier_at("22fb2cd6-0e7b-422b-a0c7-2fad1fd0e716"@, text);
    }
    if occurs("edd08927-9cc4-4e65-b970-c2560fb5c289"@, text) {
        reveal_strlit("edd08927-9cc4-4e65-b970-c2560fb5c289");
        lemma_identifier_at("edd08927-9cc4-4e65-b970-c2560fb5c289"@, text);
    }
}

proof fn lemma_defender_guid_known()
    ensures
        provider_name(ascii_lowered(DEFENDER_GUID@)) == "Windows-Defender"@,
        vstd::utf8::is_ascii_chars(DEFENDER_GUID@),
{
    let text = ascii_lowered(DEFENDER_GUID@);
    reveal_strlit("{11cd958a-c507-4ef3-b3f2-5fd9dfbd2c78}");
    reveal_strlit("11cd958a-c507-4ef3-b3f2-5fd9dfbd2c78");
    assert(DEFENDER_GUID@ == "{11cd958a-c507-4ef3-b3f2-5fd9dfbd2c78}"@);
    assert(text.len() == 38);
    assert(text.subrange(1, 37) =~= "11cd958a-c507-4ef3-b3f2-5fd9dfbd2c78"@);
    assert(occurs_at("11cd958a-c507-4ef3-b3f2-5fd9dfbd2c78"@, text, 1));
    assert(text[8] != '-' && text[10] != '-');
    if occurs("f4e1897c-bb5d-5668-f1d8-040f4d8dd344"@, text) {
        reveal_strlit("f4e1897c-bb5d-5668-f1d8-040f4d8dd344");
        lemma_identifier_at("f4e1897c-bb5d-5668-f1d8-040f4d8dd344"@, text);
    }
    if occurs("54849625-5478-4994-a5ba-3e3b0328c30d"@, text) {
        reveal_strlit("54849625-5478-4994-a5ba-3e3b0328c30d");
        lemma_identifier_at("54849625-5478-4994-a5ba-3e3b0328c30d"@, text);
    }
    if occurs("2a576b87-09a7-520e-c21a-4942f0271d67"@, text) {
        reveal_strlit("2a576b87-09a7-520e-c21a-4942f0271d67");
        lemma_identifier_at("2a576b87-09a7-520e-c21a-4942f0271d67"@, text);
    }
    if occurs("a0c1853b-5c40-4b15-8766-3cf1c58f985a"@, text) {
        reveal_strlit("a0c1853b-5c40-4b15-8766-3cf1c58f985a");
        lemma_identifier_at("a0c1853b-5c40-4b15-8766-3cf1c58f985a"@, text);
    }
    if occurs("1c95126e-7eea-49a9-a3fe-a378b03ddb4d"@, text) {
        reveal_strlit("1c95126e-7eea-49a9-a3fe-a378b03ddb4d");
        lemma_identifier_at("1c95126e-7eea-49a9-a3fe-a378b03ddb4d"@, text);
    }
    if occurs("22fb2cd6-0e7b-422b-a0c7-2fad1fd0e716"@, text) {
        reveal_strlit("22fb2cd6-0e7b-422b-a0c7-2fad1fd0e716");
        lemma_identifier_at("22fb2cd6-0e7b-422b-a0c7-2fad1fd0e716"@, text);
    }
    if occurs("edd08927-9cc4-4e65-b970-c2560fb5c289"@, text) {
        reveal_strlit("edd08927-9cc4-4e65-b970-c2560fb5c289");
        lemma_identifier_at("edd08927-9cc4-4e65-b970-c2560fb5c289"@, text);
    }
    if occurs("7dd42a49-5329-4832-8dfd-43d979153a88"@, text) {
        reveal_strlit("7dd42a49-5329-4832-8dfd-43d979153a88");
        lemma_identifier_at("7dd42a49-5329-4832-8dfd-43d979153a88"@, text);
    }
}

proof fn lemma_sysmon_guid_known()
    ensures
        provider_name(ascii_lowered(SYSMON_GUID@)) == "Sysmon"@,
        vstd::utf8::is_ascii_chars(SYSMON_GUID@),
{
    let text = ascii_lowered(SYSMON_GUID@);
    reveal_strlit("{5770385f-c22a-43e0-bf4c-06f5698ffbd9}");
    reveal_strlit("5770385f-c22a-43e0-bf4c-06f5698ffbd9");
    assert(SYSMON_GUID@ == "{5770385f-c22a-43e0-bf4c-06f5698ffbd9}"@);
    assert(text.len() == 38);
    assert(text.subrange(1, 37) =~= "5770385f-c22a-43e0-bf4c-06f5698ffbd9"@);
    assert(occurs_at("5770385f-c22a-43e0-bf4c-06f5698ffbd9"@, text, 1));
    assert(text[8] != '-' && text[10] != '-');
    if occurs("f4e1897c-bb5d-5668-f1d8-040f4d8dd344"@, text) {
        reveal_strlit("f4e1897c-bb5d-5668-f1d8-040f4d8dd344");
        lemma_identifier_at("f4e1897c-bb5d-5668-f1d8-040f4d8dd344"@, text);
    }
    if occurs("54849625-5478-4994-a5ba-3e3b0328c30d"@, text) {
        reveal_strlit("54849625-5478-4994-a5ba-3e3b0328c30d");
        lemma_identifier_at("54849625-5478-4994-a5ba-3e3b0328c30d"@, text);
    }
    if occurs("2a576b87-09a7-520e-c21a-4942f0271d67"@, text) {
        reveal_strlit("2a576b87-09a7-520e-c21a-4942f0271d67");
        lemma_identifier_at("2a576b87-09a7-520e-c21a-4942f0271d67"@, text);
    }
    if occurs("a0c1853b-5c40-4b15-8766-3cf1c58f985a"@, text) {
        reveal_strlit("a0c1853b-5c40-4b15-8766-3cf1c58f985a");
        lemma_identifier_at("a0c1853b-5c40-4b15-8766-3cf1c58f985a"@, text);
    }
    if occurs("1c95126e-7eea-49a9-a3fe-a378b03ddb4d"@, text) {
        reveal_strlit("1c95126e-7eea-49a9-a3fe-a378b03ddb4d");
        lemma_identifier_at("1c95126e-7eea-49a9-a3fe-a378b03ddb4d"@, text);
    }
    if occurs("22fb2cd6-0e7b-422b-a0c7-2fad1fd0e716"@, text) {
        reveal_strlit("22fb2cd6-0e7b-422b-a0c7-2fad1fd0e716");
        lemma_identifier_at("22fb2cd6-0e7b-422b-a0c7-2fad1fd0e716"@, text);
    }
    if occurs("edd08927-9cc4-4e65-b970-c2560fb5c289"@, text) {
        reveal_strlit("edd08927-9cc4-4e65-b970-c2560fb5c289");
        lemma_identifier_at("edd08927-9cc4-4e65-b970-c2560fb5c289"@, text);
    }
    if occurs("7dd42a49-5329-4832-8dfd-43d979153a88"@, text) {
        reveal_strlit("7dd42a49-5329-4832-8dfd-43d979153a88");
        lemma_identifier_at("7dd42a49-5329-4832-8dfd-43d979153a88"@, text);
    }
    if occurs("11cd958a-c507-4ef3-b3f2-5fd9dfbd2c78"@, text) {
        reveal_strlit("11cd958a-c507-4ef3-b3f2-5fd9dfbd2c78");
        lemma_identifier_at("11cd958a-c507-4ef3-b3f2-5fd9dfbd2c78"@, text);
    }
}

proof fn lemma_names_differ()
    ensures
        forall|i: int| 0 <= i < 10 ==> #[trigger] critical_names()[i] != "Unknown"@,
        forall|i: int, j: int|
            0 <= i < j < 10 ==> #[trigger] critical_names()[i] != #[trigger] critical_names()[j],
{
    reveal_strlit("Microsoft-Windows-Threat-Intelligence");
    reveal_strlit("Microsoft-Windows-Security-Auditing");
    reveal_strlit("Microsoft-Antimalware-Scan-Interface");
    reveal_strlit("Microsoft-Windows-PowerShell");
    reveal_strlit("Microsoft-Windows-DNS-Client");
    reveal_strlit("Microsoft-Windows-Kernel-Process");
    reveal_strlit("Microsoft-Windows-Kernel-File");
    reveal_strlit("Microsoft-Windows-Kernel-Network");
    reveal_strlit("Windows-Defender");
    reveal_strlit("Sysmon");
    reveal_strlit("Unknown");
    let names = critical_names();
    assert("Microsoft-Windows-PowerShell"@[18] != "Microsoft-Windows-DNS-Client"@[18]);
    assert("Microsoft-Windows-Kernel-Process"@[25] != "Microsoft-Windows-Kernel-Network"@[25]);
    assert(names.len() == 10);
    assert forall|i: int| 0 <= i < 10 implies #[trigger] names[i] != "Unknown"@ by {
        assert(names[i].len() != 7);
    }
    assert forall|i: int, j: int| 0 <= i < j < 10 implies #[trigger] names[i] != #[trigger] names[j]
        by {
        assert(names[i].len() != names[j].len() || (i == 3 && j == 4) || (i == 5 && j == 7));
    }
}

/// There are ten critical providers, that of threat intelligence first. Each is known
/// under a name, and no two of them under the same.
pub proof fn law_critical_providers_are_known(i: int, j: int)
    requires
        0 <= i < 10,
        0 <= j < 10,
    ensures
        critical_guids().len() == 10,
        critical_guids()[0] == THREAT_INTEL_GUID@,
        vstd::utf8::is_ascii_chars(critical_guids()[i]),
        provider_name(ascii_lowered(critical_guids()[i])) == critical_names()[i],
        critical_names()[i] != "Unknown"@,
        i != j ==> critical_names()[i] != critical_names()[j],
        i != j ==> critical_guids()[i] != critical_guids()[j],
{
    lemma_names_differ();
    lemma_threat_intel_guid_known();
    lemma_security_auditing_guid_known();
    lemma_amsi_guid_known();
    lemma_powershell_guid_known();
    lemma_dns_client_guid_known();
    lemma_kernel_process_guid_known();
    lemma_kernel_file_guid_known();
    lemma_kernel_network_guid_known();
    lemma_defender_guid_known();
    lemma_sysmon_guid_known();
    if i < j {
        assert(critical_names()[i] != critical_names()[j]);
    } else if j < i {
        assert(critical_names()[j] != critical_names()[i]);
    }
    assert(provider_name(ascii_lowered(critical_guids()[j])) == critical_names()[j]);
}

} // verus!
