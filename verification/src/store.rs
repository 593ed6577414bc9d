//! The current user's store of personal certificates.

use vstd::prelude::*;
use vstd::utf8::{decode_utf8, valid_utf8};

use crate::certificates::PersonalCertificate;
use crate::encoding::utf8_text;
use crate::error::{certificate_error, outcome, view_outcome, AppError, AppResult, ErrorView};
use crate::process::{command_error, command_message, CommandOutput, OutputView};
use crate::text::{
    blank, chars_of, hex_digit, is_blank, is_hex_digit, law_case_is_that_of_letters, upper,
    uppercase, view_option,
};

verus! {

/// The script that lists the store as a JSON array.
pub open spec fn inventory_script_text() -> Seq<char> {
    "[Console]::OutputEncoding = [Text.UTF8Encoding]::new($false); $items = @(Get-ChildItem Cert:\\CurrentUser\\My | ForEach-Object { [pscustomobject]@{ thumbprint=$_.Thumbprint.ToLowerInvariant(); serialNumber=$_.SerialNumber.ToLowerInvariant(); subject=$_.Subject; issuer=$_.Issuer; simpleName=$_.GetNameInfo([Security.Cryptography.X509Certificates.X509NameType]::SimpleName, $false); dnsNames=@($_.DnsNameList | ForEach-Object { if ($_.Unicode) { $_.Unicode } }); emailNames=@($_.GetNameInfo([Security.Cryptography.X509Certificates.X509NameType]::EmailName, $false) | Where-Object { $_ }); notBefore=$_.NotBefore.ToUniversalTime().ToString('o'); notAfter=$_.NotAfter.ToUniversalTime().ToString('o'); hasPrivateKey=$_.HasPrivateKey; ekuOids=@($_.EnhancedKeyUsageList | ForEach-Object { if ($_.ObjectId -and $_.ObjectId.Value) { $_.ObjectId.Value } }) } }); ConvertTo-Json -Compress -Depth 4 -InputObject $items"@
}

pub fn inventory_script() -> (r: &'static str)
    ensures
        r@ == inventory_script_text(),
{
    "[Console]::OutputEncoding = [Text.UTF8Encoding]::new($false); $items = @(Get-ChildItem Cert:\\CurrentUser\\My | ForEach-Object { [pscustomobject]@{ thumbprint=$_.Thumbprint.ToLowerInvariant(); serialNumber=$_.SerialNumber.ToLowerInvariant(); subject=$_.Subject; issuer=$_.Issuer; simpleName=$_.GetNameInfo([Security.Cryptography.X509Certificates.X509NameType]::SimpleName, $false); dnsNames=@($_.DnsNameList | ForEach-Object { if ($_.Unicode) { $_.Unicode } }); emailNames=@($_.GetNameInfo([Security.Cryptography.X509Certificates.X509NameType]::EmailName, $false) | Where-Object { $_ }); notBefore=$_.NotBefore.ToUniversalTime().ToString('o'); notAfter=$_.NotAfter.ToUniversalTime().ToString('o'); hasPrivateKey=$_.HasPrivateKey; ekuOids=@($_.EnhancedKeyUsageList | ForEach-Object { if ($_.ObjectId -and $_.ObjectId.Value) { $_.ObjectId.Value } }) } }); ConvertTo-Json -Compress -Depth 4 -InputObject $items"
}

/// The JSON text of an inventory; `None` where the store is empty.
pub open spec fn inventory_text(output: Result<OutputView, ErrorView>) -> Result<
    Option<Seq<char>>,
    ErrorView,
> {
    match output {
        Err(e) => Err(e),
        Ok(output) => if !output.success {
            Err(
                ErrorView::Certificate(
                    command_message(
                        "Windows could not inspect the Personal certificate store"@,
                        output,
                    ),
                ),
            )
        } else if !valid_utf8(output.stdout) {
            Err(ErrorView::Certificate("Windows returned invalid certificate-store data"@))
        } else if is_blank(decode_utf8(output.stdout)) {
            Ok(None)
        } else {
            Ok(Some(decode_utf8(output.stdout)))
        },
    }
}

pub open spec fn view_inventory_text(r: AppResult<Option<String>>) -> Result<
    Option<Seq<char>>,
    ErrorView,
> {
    match r {
        Ok(text) => Ok(view_option(text)),
        Err(e) => Err(e@),
    }
}

/// The JSON text that the script printed; `None` where the store is empty.
pub fn read_inventory(output: AppResult<CommandOutput>) -> (r: AppResult<Option<String>>)
    ensures
        view_inventory_text(r) == inventory_text(view_outcome(output)),
{
    let output: CommandOutput = match output {
        Ok(output) => output,
        Err(e) => return Err(e),
    };
    if !output.success {
        return Err(
            AppError::Certificate(
                command_error(
                    "Windows could not inspect the Personal certificate store",
                    &output,
                ),
            ),
        );
    }
    match utf8_text(output.stdout) {
        None => Err(certificate_error("Windows returned invalid certificate-store data")),
        Some(text) => if blank(text.as_str()) {
            Ok(None)
        } else {
            Ok(Some(text))
        },
    }
}

/// The certificates of an inventory that was parsed.
pub open spec fn listed(parsed: Option<Vec<PersonalCertificate>>) -> Result<
    Vec<PersonalCertificate>,
    ErrorView,
> {
    match parsed {
        Some(all) => Ok(all),
        None => Err(ErrorView::Certificate("Windows returned malformed certificate-store data"@)),
    }
}

/// The certificates of an inventory, from what the JSON parser made of its
/// text.
pub fn list_personal_certificates(parsed: Option<Vec<PersonalCertificate>>) -> (r: AppResult<
    Vec<PersonalCertificate>,
>)
    ensures
        outcome(r) == listed(parsed),
        outcome(r) == (match parsed {
            Some(all) => Ok::<Vec<PersonalCertificate>, ErrorView>(all),
            None => Err::<Vec<PersonalCertificate>, ErrorView>(
                ErrorView::Certificate("Windows returned malformed certificate-store data"@),
            ),
        }),
{
    match parsed {
        Some(all) => Ok(all),
        None => Err(certificate_error("Windows returned malformed certificate-store data")),
    }
}

/// Forty hexadecimal digits.
pub open spec fn is_thumbprint(s: Seq<char>) -> bool {
    s.len() == 40 && forall|i: int| 0 <= i < s.len() ==> is_hex_digit(#[trigger] s[i])
}

/// The thumbprint as the store knows it.
pub open spec fn removal_target(thumbprint: Seq<char>) -> Result<Seq<char>, ErrorView> {
    if is_thumbprint(thumbprint) {
        Ok(upper(thumbprint))
    } else {
        Err(ErrorView::Certificate("certificate thumbprint is invalid"@))
    }
}

/// The thumbprint under which a certificate is removed from the store.
pub fn remove_personal_certificate(thumbprint: &str) -> (r: AppResult<String>)
    ensures
        view_outcome(r) == removal_target(thumbprint@),
{
    let chars: Vec<char> = chars_of(thumbprint);
    let mut allowed: bool = chars.len() == 40;
    let mut i: usize = 0;
    while i < chars.len()
        invariant
            chars@ == thumbprint@,
            0 <= i <= chars@.len(),
            allowed == (thumbprint@.len() == 40 && forall|k: int|
                0 <= k < i ==> is_hex_digit(#[trigger] thumbprint@[k])),
        decreases chars@.len() - i,
    {
        if !hex_digit(chars[i]) {
            assert(!is_hex_digit(thumbprint@[i as int]));
            allowed = false;
        }
        i += 1;
    }
    if allowed {
        Ok(uppercase(thumbprint))
    } else {
        Err(certificate_error("certificate thumbprint is invalid"))
    }
}

/// What the removal of a certificate came to.
pub open spec fn removed(output: Result<OutputView, ErrorView>) -> Result<(), ErrorView> {
    match output {
        Err(e) => Err(e),
        Ok(output) => if output.success {
            Ok(())
        } else {
            Err(
                ErrorView::Certificate(
                    command_message(
                        "Windows could not remove the certificate from CurrentUser\\My"@,
                        output,
                    ),
                ),
            )
        },
    }
}

/// What the removal of a certificate came to.
pub fn personal_certificate_removed(output: AppResult<CommandOutput>) -> (r: AppResult<()>)
    ensures
        outcome(r) == removed(view_outcome(output)),
{
    match output {
        Err(e) => Err(e),
        Ok(output) => if output.success {
            Ok(())
        } else {
            Err(
                AppError::Certificate(
                    command_error(
                        "Windows could not remove the certificate from CurrentUser\\My",
                        &output,
                    ),
                ),
            )
        },
    }
}

/// A store is read where the program succeeded and printed UTF-8: what it
/// printed, or nothing where that is blank.
pub proof fn law_stores_are_read_as_printed(output: OutputView, error: ErrorView)
    ensures
        inventory_text(Ok(output)) is Ok <==> output.success && valid_utf8(output.stdout),
        output.success && valid_utf8(output.stdout) && !is_blank(decode_utf8(output.stdout))
            ==> inventory_text(Ok(output)) == Ok::<Option<Seq<char>>, ErrorView>(
            Some(decode_utf8(output.stdout)),
        ),
        output.success && valid_utf8(output.stdout) && is_blank(decode_utf8(output.stdout))
            ==> inventory_text(Ok(output)) == Ok::<Option<Seq<char>>, ErrorView>(None),
        !output.success ==> inventory_text(Ok(output)) == Err::<Option<Seq<char>>, ErrorView>(
            ErrorView::Certificate(
                command_message(
                    "Windows could not inspect the Personal certificate store"@,
                    output,
                ),
            ),
        ),
        output.success && !valid_utf8(output.stdout) ==> inventory_text(Ok(output)) == Err::<
            Option<Seq<char>>,
            ErrorView,
        >(ErrorView::Certificate("Windows returned invalid certificate-store data"@)),
        inventory_text(Err(error)) == Err::<Option<Seq<char>>, ErrorView>(error),
{
}

/// Every certificate that was parsed is listed, in its order.
pub proof fn law_parsed_certificates_are_listed(all: Vec<PersonalCertificate>)
    ensures
        listed(Some(all)) == Ok::<Vec<PersonalCertificate>, ErrorView>(all),
        listed(None) == Err::<Vec<PersonalCertificate>, ErrorView>(
            ErrorView::Certificate("Windows returned malformed certificate-store data"@),
        ),
{
}

/// A certificate is removed by a thumbprint of forty hexadecimal digits, in
/// upper case; anything else is refused.
pub proof fn law_certificates_are_removed_by_thumbprint(thumbprint: Seq<char>, i: int)
    ensures
        removal_target(thumbprint) is Ok <==> thumbprint.len() == 40 && forall|k: int|
            0 <= k < thumbprint.len() ==> ('0' <= #[trigger] thumbprint[k] <= '9' || 'a'
                <= thumbprint[k] <= 'f' || 'A' <= thumbprint[k] <= 'F'),
        removal_target(thumbprint) matches Ok(target) ==> {
            &&& target.len() == 40
            &&& 0 <= i < 40 && !('a' <= thumbprint[i] <= 'f') ==> target[i] == thumbprint[i]
            &&& 0 <= i < 40 && 'a' <= thumbprint[i] <= 'f' ==> target[i] as u32
                == thumbprint[i] as u32 - 32
        },
        removal_target(thumbprint) is Err ==> removal_target(thumbprint)->Err_0
            == ErrorView::Certificate("certificate thumbprint is invalid"@),
{
    if is_thumbprint(thumbprint) {
        assert forall|k: int| 0 <= k < thumbprint.len() implies ('0' <= #[trigger] thumbprint[k]
            <= '9' || 'a' <= thumbprint[k] <= 'f' || 'A' <= thumbprint[k] <= 'F') by {
            assert(is_hex_digit(thumbprint[k]));
        }
    }
    if thumbprint.len() == 40 && forall|k: int|
        0 <= k < thumbprint.len() ==> ('0' <= #[trigger] thumbprint[k] <= '9' || 'a'
            <= thumbprint[k] <= 'f' || 'A' <= thumbprint[k] <= 'F') {
        assert forall|k: int| 0 <= k < thumbprint.len() implies is_hex_digit(
            #[trigger] thumbprint[k],
        ) by {}
    }
    if is_thumbprint(thumbprint) && 0 <= i < 40 {
        assert(is_hex_digit(thumbprint[i]));
        law_case_is_that_of_letters(thumbprint, i);
    }
}

/// A removal is done where the command succeeded, and nowhere else.
pub proof fn law_removals_go_by_the_command(output: OutputView, error: ErrorView)
    ensures
        removed(Ok(output)) is Ok <==> output.success,
        !output.success ==> removed(Ok(output))->Err_0 == ErrorView::Certificate(
            command_message(
                "Windows could not remove the certificate from CurrentUser\\My"@,
                output,
            ),
        ),
        removed(Err(error)) == Err::<(), ErrorView>(error),
{
}

} // verus!
