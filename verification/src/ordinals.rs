//! Names of functions imported by ordinal from the Winsock libraries (`ws2_32.dll`,
//! `wsock32.dll`, which share one table) and from `oleaut32.dll`, lowercased. An ordinal
//! import from one of these libraries is shown, and hashed, by its function name; every
//! other ordinal import is `ord<N>`.

use vstd::prelude::*;
use crate::imports::{lemma_ordinal_name_is_decimal, ordinal_name, ordinal_string};
use crate::text::{decimal_value, is_decimal_numeral};

verus! {

pub open spec fn opt_str_view(o: Option<&str>) -> Option<Seq<char>> {
    match o {
        Some(s) => Some(s@),
        None => None,
    }
}

/// Names of the Winsock ordinals (ws2_32.dll, wsock32.dll), lowercased.
pub open spec fn winsock_ordinal_name(o: u16) -> Option<Seq<char>> {
    match o {
        1 => Some("accept"@),
        2 => Some("bind"@),
        3 => Some("closesocket"@),
        4 => Some("connect"@),
        5 => Some("getpeername"@),
        6 => Some("getsockname"@),
        7 => Some("getsockopt"@),
        8 => Some("htonl"@),
        9 => Some("htons"@),
        10 => Some("ioctlsocket"@),
        11 => Some("inet_addr"@),
        12 => Some("inet_ntoa"@),
        13 => Some("listen"@),
        14 => Some("ntohl"@),
        15 => Some("ntohs"@),
        16 => Some("recv"@),
        17 => Some("recvfrom"@),
        18 => Some("select"@),
        19 => Some("send"@),
        20 => Some("sendto"@),
        21 => Some("setsockopt"@),
        22 => Some("shutdown"@),
        23 => Some("socket"@),
        51 => Some("gethostbyaddr"@),
        52 => Some("gethostbyname"@),
        53 => Some("getprotobyname"@),
        54 => Some("getprotobynumber"@),
        55 => Some("getservbyname"@),
        56 => Some("getservbyport"@),
        57 => Some("gethostname"@),
        101 => Some("wsaasyncselect"@),
        102 => Some("wsaasyncgethostbyaddr"@),
        103 => Some("wsaasyncgethostbyname"@),
        104 => Some("wsaasyncgetprotobynumber"@),
        105 => Some("wsaasyncgetprotobyname"@),
        106 => Some("wsaasyncgetservbyport"@),
        107 => Some("wsaasyncgetservbyname"@),
        108 => Some("wsacancelasyncrequest"@),
        109 => Some("wsasetblockinghook"@),
        110 => Some("wsaunhookblockinghook"@),
        111 => Some("wsagetlasterror"@),
        112 => Some("wsasetlasterror"@),
        113 => Some("wsacancelblockingcall"@),
        114 => Some("wsaisblocking"@),
        115 => Some("wsastartup"@),
        116 => Some("wsacleanup"@),
        151 => Some("__wsafdisset"@),
        500 => Some("wep"@),
        _ => None,
    }
}

/// Names of the OLE Automation ordinals (oleaut32.dll), lowercased.
pub open spec fn oleaut32_ordinal_name(o: u16) -> Option<Seq<char>> {
    match o {
        2 => Some("sysallocstring"@),
        3 => Some("sysreallocstring"@),
        4 => Some("sysallocstringlen"@),
        5 => Some("sysreallocstringlen"@),
        6 => Some("sysfreestring"@),
        7 => Some("sysstringlen"@),
        8 => Some("variantinit"@),
        9 => Some("variantclear"@),
        10 => Some("variantcopy"@),
        11 => Some("variantcopyind"@),
        12 => Some("variantchangetype"@),
        13 => Some("varianttimetodosdatetime"@),
        14 => Some("dosdatetimetovarianttime"@),
        15 => Some("safearraycreate"@),
        16 => Some("safearraydestroy"@),
        17 => Some("safearraygetdim"@),
        18 => Some("safearraygetelemsize"@),
        19 => Some("safearraygetubound"@),
        20 => Some("safearraygetlbound"@),
        21 => Some("safearraylock"@),
        22 => Some("safearrayunlock"@),
        23 => Some("safearrayaccessdata"@),
        24 => Some("safearrayunaccessdata"@),
        25 => Some("safearraygetelement"@),
        26 => Some("safearrayputelement"@),
        27 => Some("safearraycopy"@),
        28 => Some("dispgetparam"@),
        29 => Some("dispgetidsofnames"@),
        30 => Some("dispinvoke"@),
        31 => Some("createdisptypeinfo"@),
        32 => Some("createstddispatch"@),
        33 => Some("registeractiveobject"@),
        34 => Some("revokeactiveobject"@),
        35 => Some("getactiveobject"@),
        36 => Some("safearrayallocdescriptor"@),
        37 => Some("safearrayallocdata"@),
        38 => Some("safearraydestroydescriptor"@),
        39 => Some("safearraydestroydata"@),
        40 => Some("safearrayredim"@),
        41 => Some("safearrayallocdescriptorex"@),
        42 => Some("safearraycreateex"@),
        43 => Some("safearraycreatevectorex"@),
        44 => Some("safearraysetrecordinfo"@),
        45 => Some("safearraygetrecordinfo"@),
        46 => Some("varparsenumfromstr"@),
        47 => Some("varnumfromparsenum"@),
        48 => Some("vari2fromui1"@),
        49 => Some("vari2fromi4"@),
        50 => Some("vari2fromr4"@),
        51 => Some("vari2fromr8"@),
        52 => Some("vari2fromcy"@),
        53 => Some("vari2fromdate"@),
        54 => Some("vari2fromstr"@),
        55 => Some("vari2fromdisp"@),
        56 => Some("vari2frombool"@),
        57 => Some("safearraysetiid"@),
        58 => Some("vari4fromui1"@),
        59 => Some("vari4fromi2"@),
        60 => Some("vari4fromr4"@),
        61 => Some("vari4fromr8"@),
        62 => Some("vari4fromcy"@),
        63 => Some("vari4fromdate"@),
        64 => Some("vari4fromstr"@),
        65 => Some("vari4fromdisp"@),
        66 => Some("vari4frombool"@),
        67 => Some("safearraygetiid"@),
        68 => Some("varr4fromui1"@),
        69 => Some("varr4fromi2"@),
        70 => Some("varr4fromi4"@),
        71 => Some("varr4fromr8"@),
        72 => Some("varr4fromcy"@),
        73 => Some("varr4fromdate"@),
        74 => Some("varr4fromstr"@),
        75 => Some("varr4fromdisp"@),
        76 => Some("varr4frombool"@),
        77 => Some("safearraygetvartype"@),
        78 => Some("varr8fromui1"@),
        79 => Some("varr8fromi2"@),
        80 => Some("varr8fromi4"@),
        81 => Some("varr8fromr4"@),
        82 => Some("varr8fromcy"@),
        83 => Some("varr8fromdate"@),
        84 => Some("varr8fromstr"@),
        85 => Some("varr8fromdisp"@),
        86 => Some("varr8frombool"@),
        87 => Some("varformat"@),
        88 => Some("vardatefromui1"@),
        89 => Some("vardatefromi2"@),
        90 => Some("vardatefromi4"@),
        91 => Some("vardatefromr4"@),
        92 => Some("vardatefromr8"@),
        93 => Some("vardatefromcy"@),
        94 => Some("vardatefromstr"@),
        95 => Some("vardatefromdisp"@),
        96 => Some("vardatefrombool"@),
        97 => Some("varformatdatetime"@),
        98 => Some("varcyfromui1"@),
        99 => Some("varcyfromi2"@),
        100 => Some("varcyfromi4"@),
        101 => Some("varcyfromr4"@),
        102 => Some("varcyfromr8"@),
        103 => Some("varcyfromdate"@),
        104 => Some("varcyfromstr"@),
        105 => Some("varcyfromdisp"@),
        106 => Some("varcyfrombool"@),
        107 => Some("varformatnumber"@),
        108 => Some("varbstrfromui1"@),
        109 => Some("varbstrfromi2"@),
        110 => Some("varbstrfromi4"@),
        111 => Some("varbstrfromr4"@),
        112 => Some("varbstrfromr8"@),
        113 => Some("varbstrfromcy"@),
        114 => Some("varbstrfromdate"@),
        115 => Some("varbstrfromdisp"@),
        116 => Some("varbstrfrombool"@),
        117 => Some("varformatpercent"@),
        118 => Some("varboolfromui1"@),
        119 => Some("varboolfromi2"@),
        120 => Some("varboolfromi4"@),
        121 => Some("varboolfromr4"@),
        122 => Some("varboolfromr8"@),
        123 => Some("varboolfromdate"@),
        124 => Some("varboolfromcy"@),
        125 => Some("varboolfromstr"@),
        126 => Some("varboolfromdisp"@),
        127 => Some("varformatcurrency"@),
        128 => Some("varweekdayname"@),
        129 => Some("varmonthname"@),
        130 => Some("varui1fromi2"@),
        131 => Some("varui1fromi4"@),
        132 => Some("varui1fromr4"@),
        133 => Some("varui1fromr8"@),
        134 => Some("varui1fromcy"@),
        135 => Some("varui1fromdate"@),
        136 => Some("varui1fromstr"@),
        137 => Some("varui1fromdisp"@),
        138 => Some("varui1frombool"@),
        139 => Some("varformatfromtokens"@),
        140 => Some("vartokenizeformatstring"@),
        141 => Some("varadd"@),
        142 => Some("varand"@),
        143 => Some("vardiv"@),
        _ => None,
    }
}

fn winsock_ordinal(o: u16) -> (r: Option<&'static str>)
    ensures
        opt_str_view(r) == winsock_ordinal_name(o),
{
    match o {
        1 => Some("accept"),
        2 => Some("bind"),
        3 => Some("closesocket"),
        4 => Some("connect"),
        5 => Some("getpeername"),
        6 => Some("getsockname"),
        7 => Some("getsockopt"),
        8 => Some("htonl"),
        9 => Some("htons"),
        10 => Some("ioctlsocket"),
        11 => Some("inet_addr"),
        12 => Some("inet_ntoa"),
        13 => Some("listen"),
        14 => Some("ntohl"),
        15 => Some("ntohs"),
        16 => Some("recv"),
        17 => Some("recvfrom"),
        18 => Some("select"),
        19 => Some("send"),
        20 => Some("sendto"),
        21 => Some("setsockopt"),
        22 => Some("shutdown"),
        23 => Some("socket"),
        51 => Some("gethostbyaddr"),
        52 => Some("gethostbyname"),
        53 => Some("getprotobyname"),
        54 => Some("getprotobynumber"),
        55 => Some("getservbyname"),
        56 => Some("getservbyport"),
        57 => Some("gethostname"),
        101 => Some("wsaasyncselect"),
        102 => Some("wsaasyncgethostbyaddr"),
        103 => Some("wsaasyncgethostbyname"),
        104 => Some("wsaasyncgetprotobynumber"),
        105 => Some("wsaasyncgetprotobyname"),
        106 => Some("wsaasyncgetservbyport"),
        107 => Some("wsaasyncgetservbyname"),
        108 => Some("wsacancelasyncrequest"),
        109 => Some("wsasetblockinghook"),
        110 => Some("wsaunhookblockinghook"),
        111 => Some("wsagetlasterror"),
        112 => Some("wsasetlasterror"),
        113 => Some("wsacancelblockingcall"),
        114 => Some("wsaisblocking"),
        115 => Some("wsastartup"),
        116 => Some("wsacleanup"),
        151 => Some("__wsafdisset"),
        500 => Some("wep"),
        _ => None,
    }
}

fn oleaut32_ordinal(o: u16) -> (r: Option<&'static str>)
    ensures
        opt_str_view(r) == oleaut32_ordinal_name(o),
{
    match o {
        2 => Some("sysallocstring"),
        3 => Some("sysreallocstring"),
        4 => Some("sysallocstringlen"),
        5 => Some("sysreallocstringlen"),
        6 => Some("sysfreestring"),
        7 => Some("sysstringlen"),
        8 => Some("variantinit"),
        9 => Some("variantclear"),
        10 => Some("variantcopy"),
        11 => Some("variantcopyind"),
        12 => Some("variantchangetype"),
        13 => Some("varianttimetodosdatetime"),
        14 => Some("dosdatetimetovarianttime"),
        15 => Some("safearraycreate"),
        16 => Some("safearraydestroy"),
        17 => Some("safearraygetdim"),
        18 => Some("safearraygetelemsize"),
        19 => Some("safearraygetubound"),
        20 => Some("safearraygetlbound"),
        21 => Some("safearraylock"),
        22 => Some("safearrayunlock"),
        23 => Some("safearrayaccessdata"),
        24 => Some("safearrayunaccessdata"),
        25 => Some("safearraygetelement"),
        26 => Some("safearrayputelement"),
        27 => Some("safearraycopy"),
        28 => Some("dispgetparam"),
        29 => Some("dispgetidsofnames"),
        30 => Some("dispinvoke"),
        31 => Some("createdisptypeinfo"),
        32 => Some("createstddispatch"),
        33 => Some("registeractiveobject"),
        34 => Some("revokeactiveobject"),
        35 => Some("getactiveobject"),
        36 => Some("safearrayallocdescriptor"),
        37 => Some("safearrayallocdata"),
        38 => Some("safearraydestroydescriptor"),
        39 => Some("safearraydestroydata"),
        40 => Some("safearrayredim"),
        41 => Some("safearrayallocdescriptorex"),
        42 => Some("safearraycreateex"),
        43 => Some("safearraycreatevectorex"),
        44 => Some("safearraysetrecordinfo"),
        45 => Some("safearraygetrecordinfo"),
        46 => Some("varparsenumfromstr"),
        47 => Some("varnumfromparsenum"),
        48 => Some("vari2fromui1"),
        49 => Some("vari2fromi4"),
        50 => Some("vari2fromr4"),
        51 => Some("vari2fromr8"),
        52 => Some("vari2fromcy"),
        53 => Some("vari2fromdate"),
        54 => Some("vari2fromstr"),
        55 => Some("vari2fromdisp"),
        56 => Some("vari2frombool"),
        57 => Some("safearraysetiid"),
        58 => Some("vari4fromui1"),
        59 => Some("vari4fromi2"),
        60 => Some("vari4fromr4"),
        61 => Some("vari4fromr8"),
        62 => Some("vari4fromcy"),
        63 => Some("vari4fromdate"),
        64 => Some("vari4fromstr"),
        65 => Some("vari4fromdisp"),
        66 => Some("vari4frombool"),
        67 => Some("safearraygetiid"),
        68 => Some("varr4fromui1"),
        69 => Some("varr4fromi2"),
        70 => Some("varr4fromi4"),
        71 => Some("varr4fromr8"),
        72 => Some("varr4fromcy"),
        73 => Some("varr4fromdate"),
        74 => Some("varr4fromstr"),
        75 => Some("varr4fromdisp"),
        76 => Some("varr4frombool"),
        77 => Some("safearraygetvartype"),
        78 => Some("varr8fromui1"),
        79 => Some("varr8fromi2"),
        80 => Some("varr8fromi4"),
        81 => Some("varr8fromr4"),
        82 => Some("varr8fromcy"),
        83 => Some("varr8fromdate"),
        84 => Some("varr8fromstr"),
        85 => Some("varr8fromdisp"),
        86 => Some("varr8frombool"),
        87 => Some("varformat"),
        88 => Some("vardatefromui1"),
        89 => Some("vardatefromi2"),
        90 => Some("vardatefromi4"),
        91 => Some("vardatefromr4"),
        92 => Some("vardatefromr8"),
        93 => Some("vardatefromcy"),
        94 => Some("vardatefromstr"),
        95 => Some("vardatefromdisp"),
        96 => Some("vardatefrombool"),
        97 => Some("varformatdatetime"),
        98 => Some("varcyfromui1"),
        99 => Some("varcyfromi2"),
        100 => Some("varcyfromi4"),
        101 => Some("varcyfromr4"),
        102 => Some("varcyfromr8"),
        103 => Some("varcyfromdate"),
        104 => Some("varcyfromstr"),
        105 => Some("varcyfromdisp"),
        106 => Some("varcyfrombool"),
        107 => Some("varformatnumber"),
        108 => Some("varbstrfromui1"),
        109 => Some("varbstrfromi2"),
        110 => Some("varbstrfromi4"),
        111 => Some("varbstrfromr4"),
        112 => Some("varbstrfromr8"),
        113 => Some("varbstrfromcy"),
        114 => Some("varbstrfromdate"),
        115 => Some("varbstrfromdisp"),
        116 => Some("varbstrfrombool"),
        117 => Some("varformatpercent"),
        118 => Some("varboolfromui1"),
        119 => Some("varboolfromi2"),
        120 => Some("varboolfromi4"),
        121 => Some("varboolfromr4"),
        122 => Some("varboolfromr8"),
        123 => Some("varboolfromdate"),
        124 => Some("varboolfromcy"),
        125 => Some("varboolfromstr"),
        126 => Some("varboolfromdisp"),
        127 => Some("varformatcurrency"),
        128 => Some("varweekdayname"),
        129 => Some("varmonthname"),
        130 => Some("varui1fromi2"),
        131 => Some("varui1fromi4"),
        132 => Some("varui1fromr4"),
        133 => Some("varui1fromr8"),
        134 => Some("varui1fromcy"),
        135 => Some("varui1fromdate"),
        136 => Some("varui1fromstr"),
        137 => Some("varui1fromdisp"),
        138 => Some("varui1frombool"),
        139 => Some("varformatfromtokens"),
        140 => Some("vartokenizeformatstring"),
        141 => Some("varadd"),
        142 => Some("varand"),
        143 => Some("vardiv"),
        _ => None,
    }
}

/// The function name of ordinal `o` of the library whose lowercased file name is
/// `dll_lower`, when that library is one with a known ordinal table.
pub open spec fn special_ordinal(dll_lower: Seq<char>, o: u16) -> Option<Seq<char>> {
    if dll_lower == "ws2_32.dll"@ || dll_lower == "wsock32.dll"@ {
        winsock_ordinal_name(o)
    } else if dll_lower == "oleaut32.dll"@ {
        oleaut32_ordinal_name(o)
    } else {
        None
    }
}

/// The name of an import by ordinal `o` from the library `dll_lower` (lowercased): the
/// function name from the library's ordinal table, else `ord<o>`.
pub open spec fn ordinal_import_name(dll_lower: Seq<char>, o: u16) -> Seq<char> {
    match special_ordinal(dll_lower, o) {
        Some(n) => n,
        None => ordinal_name(o),
    }
}

/// Looks up the function name of ordinal `ordinal` of the library `dll_lower`
/// (a lowercased file name such as `ws2_32.dll`).
pub fn special_ordinal_name(dll_lower: &str, ordinal: u16) -> (r: Option<&'static str>)
    ensures
        opt_str_view(r) == special_ordinal(dll_lower@, ordinal),
{
    let lib = String::from_str(dll_lower);
    if lib == String::from_str("ws2_32.dll") || lib == String::from_str("wsock32.dll") {
        winsock_ordinal(ordinal)
    } else if lib == String::from_str("oleaut32.dll") {
        oleaut32_ordinal(ordinal)
    } else {
        None
    }
}

/// Law: an import by ordinal from a library without an ordinal table for `o` is named
/// `ord` followed by the canonical base-10 numeral of `o`.
pub proof fn lemma_unlisted_ordinal_is_decimal(dll_lower: Seq<char>, o: u16)
    requires
        special_ordinal(dll_lower, o) is None,
    ensures
        ordinal_import_name(dll_lower, o).len() >= 4,
        ordinal_import_name(dll_lower, o).take(3) == seq!['o', 'r', 'd'],
        is_decimal_numeral(ordinal_import_name(dll_lower, o).skip(3)),
        decimal_value(ordinal_import_name(dll_lower, o).skip(3)) == o,
{
    lemma_ordinal_name_is_decimal(o);
}

/// Renders the name of an import by ordinal `o` from the library `dll_lower`.
pub fn ordinal_import_string(dll_lower: &str, o: u16) -> (s: String)
    ensures
        s@ == ordinal_import_name(dll_lower@, o),
        special_ordinal(dll_lower@, o) is None ==> s@.take(3) == seq!['o', 'r', 'd']
            && is_decimal_numeral(s@.skip(3)) && decimal_value(s@.skip(3)) == o,
{
    match special_ordinal_name(dll_lower, o) {
        Some(n) => String::from_str(n),
        None => ordinal_string(o),
    }
}

} // verus!
